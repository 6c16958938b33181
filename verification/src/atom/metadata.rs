use vstd::prelude::*;
use vstd::string::StringSliceAdditionalSpecFns;

use crate::atom::text_child;
use crate::atom::ElementNode;
use crate::common::attributes::spec_set_entry;
use crate::common::attributes::spec_set_opt;
use crate::common::attributes::AttrView;
use crate::common::attributes::AttributeMap;
use crate::common::attributes::AttributeName;
use crate::common::attributes::AttributeValue;
use crate::common::spec_link_relation_str;
use crate::common::timestamp::spec_format_chars;
use crate::common::timestamp::TimeStamp;
use crate::common::LinkRelation;
use crate::common::XmlText;
use crate::error::XmlSerializeError;
use crate::serializer::element_close;
use crate::serializer::element_empty;
use crate::serializer::element_open;
use crate::serializer::escaped_text_step;
use crate::serializer::step_write_line;
use crate::serializer::Serialize;
use crate::serializer::Write;
use crate::serializer::WriterModel;
use crate::serializer::XmlSerializer;

verus! {

/// The `type` attribute value a text payload carries.
pub open spec fn spec_text_type(value: XmlText) -> Seq<char> {
    match value {
        XmlText::Html(v) => "html"@,
        XmlText::HtmlUnchecked(v) => "html"@,
        XmlText::Xhtml(v) => "xhtml"@,
        XmlText::PlainText(v) => "text"@,
        XmlText::PlainTextUnchecked(v) => "text"@,
    }
}

/// The sink state after one text node: the element opened with the base
/// attributes plus its `type`, the payload escaped or taken as it
/// stands, and the element closed.
pub open spec fn text_node_rendered(
    m: WriterModel,
    tag: Seq<char>,
    ns: Option<Seq<char>>,
    base_attrs: Seq<AttrView>,
    value: XmlText,
) -> WriterModel {
    let attrs = spec_set_entry(base_attrs, "type"@, spec_text_type(value));
    let m1 = element_open(m, tag, ns, attrs);
    match value {
        XmlText::Html(v) => element_close(
            step_write_line(escaped_text_step(m1, v.spec_bytes()), Seq::empty()),
            tag,
            ns,
        ),
        XmlText::PlainText(v) => element_close(
            step_write_line(escaped_text_step(m1, v.spec_bytes()), Seq::empty()),
            tag,
            ns,
        ),
        XmlText::HtmlUnchecked(v) => element_close(step_write_line(m1, v.spec_bytes()), tag, ns),
        XmlText::Xhtml(v) => element_close(step_write_line(m1, v.spec_bytes()), tag, ns),
        XmlText::PlainTextUnchecked(v) => element_close(
            step_write_line(m1, v.spec_bytes()),
            tag,
            ns,
        ),
    }
}

/// Serializes one text payload into an element already described by
/// `text_node_rendered`.
fn serialize_text_node<W: Write>(
    serializer: &mut XmlSerializer<W>,
    tag: &str,
    namespace: Option<&str>,
    base_attrs: &AttributeMap,
    value: &XmlText,
) -> (r: Result<(), XmlSerializeError>)
    ensures
        final(serializer).writer.wm().pad == old(serializer).writer.wm().pad,
        final(serializer).writer.wm().tabw == old(serializer).writer.wm().tabw,
        final(serializer).writer.wm().counts == old(serializer).writer.wm().counts,
        final(serializer).writer.wm().eol == old(serializer).writer.wm().eol,
        final(serializer).writer.wm().infallible == old(serializer).writer.wm().infallible,
        old(serializer).writer.wm().infallible ==> r is Ok,
        r matches Err(e) ==> e == XmlSerializeError::IOError,
        r is Ok ==> final(serializer).writer.wm() == text_node_rendered(
            old(serializer).writer.wm(),
            tag@,
            namespace.deep_view(),
            base_attrs@,
            *value,
        ),
{
    let mut attributes = AttributeMap::new_from(base_attrs);
    match value {
        XmlText::Html(v) => {
            attributes.set(AttributeName::unchecked_new("type"), AttributeValue::new("html"));
            let element = serializer.serialize_element(tag, namespace, Some(&attributes))?;
            element.serialize_escaped_str(serializer, v)?;
            Ok(())
        },
        XmlText::HtmlUnchecked(v) => {
            attributes.set(AttributeName::unchecked_new("type"), AttributeValue::new("html"));
            let element = serializer.serialize_element(tag, namespace, Some(&attributes))?;
            element.serialize_str(serializer, v)?;
            Ok(())
        },
        XmlText::Xhtml(v) => {
            attributes.set(AttributeName::unchecked_new("type"), AttributeValue::new("xhtml"));
            let element = serializer.serialize_element(tag, namespace, Some(&attributes))?;
            element.serialize_str(serializer, v)?;
            Ok(())
        },
        XmlText::PlainText(v) => {
            attributes.set(AttributeName::unchecked_new("type"), AttributeValue::new("text"));
            let element = serializer.serialize_element(tag, namespace, Some(&attributes))?;
            element.serialize_escaped_str(serializer, v)?;
            Ok(())
        },
        XmlText::PlainTextUnchecked(v) => {
            attributes.set(AttributeName::unchecked_new("type"), AttributeValue::new("text"));
            let element = serializer.serialize_element(tag, namespace, Some(&attributes))?;
            element.serialize_str(serializer, v)?;
            Ok(())
        },
    }
}

/// An author of a feed or entry.
pub struct Author<'a> {
    pub attributes: AttributeMap,
    pub email: Option<&'a str>,
    pub name: &'a str,
    pub uri: Option<&'a str>,
}

impl<'a> Author<'a> {
    pub fn new(name: &'a str) -> (r: Self)
        ensures
            r.attributes@ == Seq::<AttrView>::empty(),
            r.name == name,
            r.email is None,
            r.uri is None,
    {
        Self { attributes: AttributeMap::new(), uri: None, email: None, name }
    }

    pub fn set_attribute(&mut self, name: AttributeName, value: AttributeValue)
        ensures
            final(self).attributes@ == spec_set_entry(old(self).attributes@, name@, value@),
            final(self).name == old(self).name,
            final(self).email == old(self).email,
            final(self).uri == old(self).uri,
    {
        self.attributes.set(name, value);
    }

    /// The attribute map itself, open for editing.
    pub fn get_mut_attributes(&mut self) -> &mut AttributeMap {
        &mut self.attributes
    }
}

/// The sink state after a person element: name, then optional uri and
/// email children.
pub open spec fn person_rendered(
    m: WriterModel,
    tag: Seq<char>,
    ns: Option<Seq<char>>,
    attrs: Seq<AttrView>,
    name: Seq<u8>,
    uri: Option<&str>,
    email: Option<&str>,
) -> WriterModel {
    let m1 = element_open(m, tag, ns, attrs);
    let m2 = text_child(m1, "name"@, ns, name);
    let m3 = match uri {
        Some(u) => text_child(m2, "uri"@, ns, u.spec_bytes()),
        None => m2,
    };
    let m4 = match email {
        Some(e) => text_child(m3, "email"@, ns, e.spec_bytes()),
        None => m3,
    };
    element_close(m4, tag, ns)
}

fn serialize_person<W: Write>(
    serializer: &mut XmlSerializer<W>,
    tag: &str,
    namespace: Option<&str>,
    attrs: &AttributeMap,
    name: &str,
    uri: Option<&str>,
    email: Option<&str>,
) -> (r: Result<(), XmlSerializeError>)
    ensures
        final(serializer).writer.wm().pad == old(serializer).writer.wm().pad,
        final(serializer).writer.wm().tabw == old(serializer).writer.wm().tabw,
        final(serializer).writer.wm().counts == old(serializer).writer.wm().counts,
        final(serializer).writer.wm().eol == old(serializer).writer.wm().eol,
        final(serializer).writer.wm().infallible == old(serializer).writer.wm().infallible,
        old(serializer).writer.wm().infallible ==> r is Ok,
        r matches Err(e) ==> e == XmlSerializeError::IOError,
        r is Ok ==> final(serializer).writer.wm() == person_rendered(
            old(serializer).writer.wm(),
            tag@,
            namespace.deep_view(),
            attrs@,
            name.spec_bytes(),
            uri,
            email,
        ),
{
    let person = serializer.serialize_element(tag, namespace, Some(attrs))?;
    let name_element = ElementNode { name: "name", value: Some(name), attributes: None };
    person.serialize(serializer, &name_element, namespace)?;
    match uri {
        Some(u) => {
            let uri_element = ElementNode { name: "uri", value: Some(u), attributes: None };
            person.serialize(serializer, &uri_element, namespace)?;
        },
        None => {
        },
    }
    match email {
        Some(e) => {
            let email_element = ElementNode { name: "email", value: Some(e), attributes: None };
            person.serialize(serializer, &email_element, namespace)?;
        },
        None => {
        },
    }
    person.end(serializer)?;
    Ok(())
}

impl<'a> Serialize for Author<'a> {
    open spec fn rendered(&self, ns: Option<Seq<char>>, m: WriterModel) -> WriterModel {
        person_rendered(
            m,
            "author"@,
            ns,
            self.attributes@,
            self.name.spec_bytes(),
            self.uri,
            self.email,
        )
    }

    open spec fn accepts(&self, ns: Option<Seq<char>>) -> bool {
        true
    }

    fn serialize<W: Write>(
        &self,
        serializer: &mut XmlSerializer<W>,
        namespace: Option<&str>,
    ) -> (r: Result<(), XmlSerializeError>) {
        serialize_person(
            serializer,
            "author",
            namespace,
            &self.attributes,
            self.name,
            self.uri,
            self.email,
        )
    }
}

/// A contributor to a feed or entry.
pub struct Contributor<'a> {
    pub attributes: AttributeMap,
    pub email: Option<&'a str>,
    pub name: &'a str,
    pub uri: Option<&'a str>,
}

impl<'a> Contributor<'a> {
    pub fn new(name: &'a str) -> (r: Self)
        ensures
            r.attributes@ == Seq::<AttrView>::empty(),
            r.name == name,
            r.email is None,
            r.uri is None,
    {
        Self { attributes: AttributeMap::new(), uri: None, email: None, name }
    }

    pub fn set_attribute(&mut self, name: AttributeName, value: AttributeValue)
        ensures
            final(self).attributes@ == spec_set_entry(old(self).attributes@, name@, value@),
            final(self).name == old(self).name,
            final(self).email == old(self).email,
            final(self).uri == old(self).uri,
    {
        self.attributes.set(name, value);
    }

    /// The attribute map itself, open for editing.
    pub fn get_mut_attributes(&mut self) -> &mut AttributeMap {
        &mut self.attributes
    }
}

impl<'a> Serialize for Contributor<'a> {
    open spec fn rendered(&self, ns: Option<Seq<char>>, m: WriterModel) -> WriterModel {
        person_rendered(
            m,
            "contributor"@,
            ns,
            self.attributes@,
            self.name.spec_bytes(),
            self.uri,
            self.email,
        )
    }

    open spec fn accepts(&self, ns: Option<Seq<char>>) -> bool {
        true
    }

    fn serialize<W: Write>(
        &self,
        serializer: &mut XmlSerializer<W>,
        namespace: Option<&str>,
    ) -> (r: Result<(), XmlSerializeError>) {
        serialize_person(
            serializer,
            "contributor",
            namespace,
            &self.attributes,
            self.name,
            self.uri,
            self.email,
        )
    }
}

/// A category a feed or entry belongs to.
pub struct Category<'a> {
    pub attributes: AttributeMap,
    pub label: Option<&'a str>,
    pub scheme: Option<&'a str>,
    pub term: &'a str,
}

impl<'a> Category<'a> {
    pub fn new(term: &'a str) -> (r: Self)
        ensures
            r.attributes@ == Seq::<AttrView>::empty(),
            r.term == term,
            r.scheme is None,
            r.label is None,
    {
        Self { attributes: AttributeMap::new(), term, scheme: None, label: None }
    }

    pub fn set_attribute(&mut self, name: AttributeName, value: AttributeValue)
        ensures
            final(self).attributes@ == spec_set_entry(old(self).attributes@, name@, value@),
            final(self).term == old(self).term,
            final(self).scheme == old(self).scheme,
            final(self).label == old(self).label,
    {
        self.attributes.set(name, value);
    }

    /// The attribute map itself, open for editing.
    pub fn get_mut_attributes(&mut self) -> &mut AttributeMap {
        &mut self.attributes
    }
}

/// The view of an optional borrowed string.
pub open spec fn opt_str_view(v: Option<&str>) -> Option<Seq<char>> {
    match v {
        Some(s) => Some(s@),
        None => None,
    }
}

impl<'a> Serialize for Category<'a> {
    open spec fn rendered(&self, ns: Option<Seq<char>>, m: WriterModel) -> WriterModel {
        let attrs = spec_set_opt(
            spec_set_opt(
                spec_set_entry(self.attributes@, "term"@, self.term@),
                "scheme"@,
                opt_str_view(self.scheme),
            ),
            "label"@,
            opt_str_view(self.label),
        );
        element_empty(m, "category"@, ns, attrs)
    }

    open spec fn accepts(&self, ns: Option<Seq<char>>) -> bool {
        true
    }

    fn serialize<W: Write>(
        &self,
        serializer: &mut XmlSerializer<W>,
        namespace: Option<&str>,
    ) -> (r: Result<(), XmlSerializeError>) {
        let mut attributes = AttributeMap::new_from(&self.attributes);
        attributes.set(AttributeName::unchecked_new("term"), AttributeValue::new(self.term));
        match self.scheme {
            Some(v) => attributes.set(
                AttributeName::unchecked_new("scheme"),
                AttributeValue::new(v),
            ),
            None => {
            },
        }
        match self.label {
            Some(v) => attributes.set(
                AttributeName::unchecked_new("label"),
                AttributeValue::new(v),
            ),
            None => {
            },
        }
        serializer.serialize_empty_element("category", namespace, Some(&attributes))?;
        Ok(())
    }
}

/// The software that produced the feed.
pub struct Generator<'a> {
    pub attributes: AttributeMap,
    pub uri: Option<&'a str>,
    pub value: &'a str,
    pub version: Option<&'a str>,
}

impl<'a> Default for Generator<'a> {
    fn default() -> (r: Self)
        ensures
            r.attributes@ == Seq::<AttrView>::empty(),
            r.value@ == "atom_syndication_format"@,
            r.uri is None,
            r.version is None,
    {
        Self {
            attributes: AttributeMap::new(),
            value: "atom_syndication_format",
            uri: None,
            version: None,
        }
    }
}

impl<'a> Generator<'a> {
    pub fn new(value: &'a str) -> (r: Self)
        ensures
            r.attributes@ == Seq::<AttrView>::empty(),
            r.value == value,
            r.uri is None,
            r.version is None,
    {
        Self { attributes: AttributeMap::new(), value, uri: None, version: None }
    }

    pub fn set_attribute(&mut self, name: AttributeName, value: AttributeValue)
        ensures
            final(self).attributes@ == spec_set_entry(old(self).attributes@, name@, value@),
            final(self).value == old(self).value,
            final(self).uri == old(self).uri,
            final(self).version == old(self).version,
    {
        self.attributes.set(name, value);
    }

    /// The attribute map itself, open for editing.
    pub fn get_mut_attributes(&mut self) -> &mut AttributeMap {
        &mut self.attributes
    }
}

impl<'a> Serialize for Generator<'a> {
    open spec fn rendered(&self, ns: Option<Seq<char>>, m: WriterModel) -> WriterModel {
        let attrs = spec_set_opt(
            spec_set_opt(self.attributes@, "version"@, opt_str_view(self.version)),
            "uri"@,
            opt_str_view(self.uri),
        );
        element_close(
            step_write_line(
                escaped_text_step(
                    element_open(m, "generator"@, ns, attrs),
                    self.value.spec_bytes(),
                ),
                Seq::empty(),
            ),
            "generator"@,
            ns,
        )
    }

    open spec fn accepts(&self, ns: Option<Seq<char>>) -> bool {
        true
    }

    fn serialize<W: Write>(
        &self,
        serializer: &mut XmlSerializer<W>,
        namespace: Option<&str>,
    ) -> (r: Result<(), XmlSerializeError>) {
        let mut attributes = AttributeMap::new_from(&self.attributes);
        match self.version {
            Some(v) => attributes.set(
                AttributeName::unchecked_new("version"),
                AttributeValue::new(v),
            ),
            None => {
            },
        }
        match self.uri {
            Some(v) => attributes.set(AttributeName::unchecked_new("uri"), AttributeValue::new(v)),
            None => {
            },
        }
        let generator = serializer.serialize_element("generator", namespace, Some(&attributes))?;
        generator.serialize_escaped_str(serializer, self.value)?;
        Ok(())
    }
}

/// The feed's icon address.
pub struct Icon<'a> {
    pub attributes: AttributeMap,
    pub uri: &'a str,
}

impl<'a> Icon<'a> {
    pub fn new(uri: &'a str) -> (r: Self)
        ensures
            r.attributes@ == Seq::<AttrView>::empty(),
            r.uri == uri,
    {
        Self { attributes: AttributeMap::new(), uri }
    }

    pub fn set_attribute(&mut self, name: AttributeName, value: AttributeValue)
        ensures
            final(self).attributes@ == spec_set_entry(old(self).attributes@, name@, value@),
            final(self).uri == old(self).uri,
    {
        self.attributes.set(name, value);
    }

    /// The attribute map itself, open for editing.
    pub fn get_mut_attributes(&mut self) -> &mut AttributeMap {
        &mut self.attributes
    }
}

impl<'a> Serialize for Icon<'a> {
    open spec fn rendered(&self, ns: Option<Seq<char>>, m: WriterModel) -> WriterModel {
        element_close(
            step_write_line(
                escaped_text_step(
                    element_open(m, "icon"@, ns, self.attributes@),
                    self.uri.spec_bytes(),
                ),
                Seq::empty(),
            ),
            "icon"@,
            ns,
        )
    }

    open spec fn accepts(&self, ns: Option<Seq<char>>) -> bool {
        true
    }

    fn serialize<W: Write>(
        &self,
        serializer: &mut XmlSerializer<W>,
        namespace: Option<&str>,
    ) -> (r: Result<(), XmlSerializeError>) {
        let icon = serializer.serialize_element("icon", namespace, Some(&self.attributes))?;
        icon.serialize_escaped_str(serializer, self.uri)?;
        Ok(())
    }
}

/// The permanent identifier of a feed or entry.
pub struct Id<'a> {
    pub attributes: AttributeMap,
    pub value: &'a str,
}

impl<'a> Id<'a> {
    pub fn new(value: &'a str) -> (r: Self)
        ensures
            r.attributes@ == Seq::<AttrView>::empty(),
            r.value == value,
    {
        Self { attributes: AttributeMap::new(), value }
    }

    pub fn set_attribute(&mut self, name: AttributeName, value: AttributeValue)
        ensures
            final(self).attributes@ == spec_set_entry(old(self).attributes@, name@, value@),
            final(self).value == old(self).value,
    {
        self.attributes.set(name, value);
    }

    /// The attribute map itself, open for editing.
    pub fn get_mut_attributes(&mut self) -> &mut AttributeMap {
        &mut self.attributes
    }
}

impl<'a> Serialize for Id<'a> {
    open spec fn rendered(&self, ns: Option<Seq<char>>, m: WriterModel) -> WriterModel {
        element_close(
            step_write_line(
                escaped_text_step(
                    element_open(m, "id"@, ns, self.attributes@),
                    self.value.spec_bytes(),
                ),
                Seq::empty(),
            ),
            "id"@,
            ns,
        )
    }

    open spec fn accepts(&self, ns: Option<Seq<char>>) -> bool {
        true
    }

    fn serialize<W: Write>(
        &self,
        serializer: &mut XmlSerializer<W>,
        namespace: Option<&str>,
    ) -> (r: Result<(), XmlSerializeError>) {
        let id = serializer.serialize_element("id", namespace, Some(&self.attributes))?;
        id.serialize_escaped_str(serializer, self.value)?;
        Ok(())
    }
}

/// A link of a feed or entry, rendered as an empty element whose
/// attributes carry the target and its metadata.
pub struct Link<'a> {
    pub attributes: AttributeMap,
    pub href: &'a str,
    pub hreflang: Option<&'a str>,
    pub length: Option<usize>,
    pub link_type: Option<&'a str>,
    pub rel: Option<LinkRelation>,
    pub title: Option<&'a str>,
}

impl<'a> Link<'a> {
    pub fn new(href: &'a str) -> (r: Self)
        ensures
            r.attributes@ == Seq::<AttrView>::empty(),
            r.href == href,
            r.hreflang is None,
            r.length is None,
            r.link_type is None,
            r.rel is None,
            r.title is None,
    {
        Self {
            attributes: AttributeMap::new(),
            title: None,
            href,
            hreflang: None,
            length: None,
            link_type: None,
            rel: None,
        }
    }

    pub fn set_attribute(&mut self, name: AttributeName, value: AttributeValue)
        ensures
            final(self).attributes@ == spec_set_entry(old(self).attributes@, name@, value@),
            final(self).href == old(self).href,
            final(self).hreflang == old(self).hreflang,
            final(self).length == old(self).length,
            final(self).link_type == old(self).link_type,
            final(self).rel == old(self).rel,
            final(self).title == old(self).title,
    {
        self.attributes.set(name, value);
    }

    /// The attribute map itself, open for editing.
    pub fn get_mut_attributes(&mut self) -> &mut AttributeMap {
        &mut self.attributes
    }
}

/// The attributes a link renders with.
pub open spec fn link_attrs(l: Link) -> Seq<AttrView> {
    let a1 = spec_set_entry(l.attributes@, "href"@, l.href@);
    let a2 = spec_set_opt(a1, "hreflang"@, opt_str_view(l.hreflang));
    let a3 = match l.rel {
        Some(rel) => spec_set_entry(a2, "rel"@, spec_link_relation_str(rel)),
        None => a2,
    };
    let a4 = spec_set_opt(a3, "type"@, opt_str_view(l.link_type));
    let a5 = spec_set_opt(a4, "title"@, opt_str_view(l.title));
    match l.length {
        Some(n) => spec_set_entry(
            a5,
            "length"@,
            crate::common::timestamp::spec_u64_dec(n as int),
        ),
        None => a5,
    }
}

impl<'a> Serialize for Link<'a> {
    open spec fn rendered(&self, ns: Option<Seq<char>>, m: WriterModel) -> WriterModel {
        element_empty(m, "link"@, ns, link_attrs(*self))
    }

    open spec fn accepts(&self, ns: Option<Seq<char>>) -> bool {
        true
    }

    fn serialize<W: Write>(
        &self,
        serializer: &mut XmlSerializer<W>,
        namespace: Option<&str>,
    ) -> (r: Result<(), XmlSerializeError>) {
        let mut attributes = AttributeMap::new_from(&self.attributes);
        attributes.set(AttributeName::unchecked_new("href"), AttributeValue::new(self.href));
        match self.hreflang {
            Some(v) => attributes.set(
                AttributeName::unchecked_new("hreflang"),
                AttributeValue::new(v),
            ),
            None => {
            },
        }
        match self.rel {
            Some(rel) => attributes.set(
                AttributeName::unchecked_new("rel"),
                AttributeValue::new(rel.as_str()),
            ),
            None => {
            },
        }
        match self.link_type {
            Some(v) => attributes.set(
                AttributeName::unchecked_new("type"),
                AttributeValue::new(v),
            ),
            None => {
            },
        }
        match self.title {
            Some(v) => attributes.set(
                AttributeName::unchecked_new("title"),
                AttributeValue::new(v),
            ),
            None => {
            },
        }
        match self.length {
            Some(n) => {
                let mut text = String::new();
                crate::common::timestamp::push_dec(&mut text, n as u64);
                attributes.set(
                    AttributeName::unchecked_new("length"),
                    AttributeValue::new(text.as_str()),
                );
            },
            None => {
            },
        }
        serializer.serialize_empty_element("link", namespace, Some(&attributes))?;
        Ok(())
    }
}

/// The feed's logo address.
pub struct Logo<'a> {
    pub attributes: AttributeMap,
    pub uri: &'a str,
}

impl<'a> Logo<'a> {
    pub fn new(uri: &'a str) -> (r: Self)
        ensures
            r.attributes@ == Seq::<AttrView>::empty(),
            r.uri == uri,
    {
        Self { attributes: AttributeMap::new(), uri }
    }

    pub fn set_attribute(&mut self, name: AttributeName, value: AttributeValue)
        ensures
            final(self).attributes@ == spec_set_entry(old(self).attributes@, name@, value@),
            final(self).uri == old(self).uri,
    {
        self.attributes.set(name, value);
    }

    /// The attribute map itself, open for editing.
    pub fn get_mut_attributes(&mut self) -> &mut AttributeMap {
        &mut self.attributes
    }
}

impl<'a> Serialize for Logo<'a> {
    open spec fn rendered(&self, ns: Option<Seq<char>>, m: WriterModel) -> WriterModel {
        element_close(
            step_write_line(
                escaped_text_step(
                    element_open(m, "logo"@, ns, self.attributes@),
                    self.uri.spec_bytes(),
                ),
                Seq::empty(),
            ),
            "logo"@,
            ns,
        )
    }

    open spec fn accepts(&self, ns: Option<Seq<char>>) -> bool {
        true
    }

    fn serialize<W: Write>(
        &self,
        serializer: &mut XmlSerializer<W>,
        namespace: Option<&str>,
    ) -> (r: Result<(), XmlSerializeError>) {
        let logo = serializer.serialize_element("logo", namespace, Some(&self.attributes))?;
        logo.serialize_escaped_str(serializer, self.uri)?;
        Ok(())
    }
}

/// The feed's or entry's rights statement.
pub struct Rights<'a> {
    pub attributes: AttributeMap,
    pub value: XmlText<'a>,
}

impl<'a> Rights<'a> {
    pub fn new(value: XmlText<'a>) -> (r: Self)
        ensures
            r.attributes@ == Seq::<AttrView>::empty(),
            r.value == value,
    {
        Self { attributes: AttributeMap::new(), value }
    }

    pub fn set_attribute(&mut self, name: AttributeName, value: AttributeValue)
        ensures
            final(self).attributes@ == spec_set_entry(old(self).attributes@, name@, value@),
            final(self).value == old(self).value,
    {
        self.attributes.set(name, value);
    }

    /// The attribute map itself, open for editing.
    pub fn get_mut_attributes(&mut self) -> &mut AttributeMap {
        &mut self.attributes
    }
}

impl<'a> Serialize for Rights<'a> {
    open spec fn rendered(&self, ns: Option<Seq<char>>, m: WriterModel) -> WriterModel {
        text_node_rendered(m, "rights"@, ns, self.attributes@, self.value)
    }

    open spec fn accepts(&self, ns: Option<Seq<char>>) -> bool {
        true
    }

    fn serialize<W: Write>(
        &self,
        serializer: &mut XmlSerializer<W>,
        namespace: Option<&str>,
    ) -> (r: Result<(), XmlSerializeError>) {
        serialize_text_node(serializer, "rights", namespace, &self.attributes, &self.value)
    }
}

/// The feed's or entry's title.
pub struct Title<'a> {
    pub attributes: AttributeMap,
    pub value: XmlText<'a>,
}

impl<'a> Title<'a> {
    pub fn new(value: XmlText<'a>) -> (r: Self)
        ensures
            r.attributes@ == Seq::<AttrView>::empty(),
            r.value == value,
    {
        Self { attributes: AttributeMap::new(), value }
    }

    pub fn set_attribute(&mut self, name: AttributeName, value: AttributeValue)
        ensures
            final(self).attributes@ == spec_set_entry(old(self).attributes@, name@, value@),
            final(self).value == old(self).value,
    {
        self.attributes.set(name, value);
    }

    /// The attribute map itself, open for editing.
    pub fn get_mut_attributes(&mut self) -> &mut AttributeMap {
        &mut self.attributes
    }
}

impl<'a> Serialize for Title<'a> {
    open spec fn rendered(&self, ns: Option<Seq<char>>, m: WriterModel) -> WriterModel {
        text_node_rendered(m, "title"@, ns, self.attributes@, self.value)
    }

    open spec fn accepts(&self, ns: Option<Seq<char>>) -> bool {
        true
    }

    fn serialize<W: Write>(
        &self,
        serializer: &mut XmlSerializer<W>,
        namespace: Option<&str>,
    ) -> (r: Result<(), XmlSerializeError>) {
        serialize_text_node(serializer, "title", namespace, &self.attributes, &self.value)
    }
}

/// The feed's subtitle.
pub struct SubTitle<'a> {
    pub attributes: AttributeMap,
    pub value: XmlText<'a>,
}

impl<'a> SubTitle<'a> {
    pub fn new(value: XmlText<'a>) -> (r: Self)
        ensures
            r.attributes@ == Seq::<AttrView>::empty(),
            r.value == value,
    {
        Self { attributes: AttributeMap::new(), value }
    }

    pub fn set_attribute(&mut self, name: AttributeName, value: AttributeValue)
        ensures
            final(self).attributes@ == spec_set_entry(old(self).attributes@, name@, value@),
            final(self).value == old(self).value,
    {
        self.attributes.set(name, value);
    }

    /// The attribute map itself, open for editing.
    pub fn get_mut_attributes(&mut self) -> &mut AttributeMap {
        &mut self.attributes
    }
}

impl<'a> Serialize for SubTitle<'a> {
    open spec fn rendered(&self, ns: Option<Seq<char>>, m: WriterModel) -> WriterModel {
        text_node_rendered(m, "subtitle"@, ns, self.attributes@, self.value)
    }

    open spec fn accepts(&self, ns: Option<Seq<char>>) -> bool {
        true
    }

    fn serialize<W: Write>(
        &self,
        serializer: &mut XmlSerializer<W>,
        namespace: Option<&str>,
    ) -> (r: Result<(), XmlSerializeError>) {
        serialize_text_node(serializer, "subtitle", namespace, &self.attributes, &self.value)
    }
}

/// The entry's summary.
pub struct Summary<'a> {
    pub attributes: AttributeMap,
    pub value: XmlText<'a>,
}

impl<'a> Summary<'a> {
    pub fn new(value: XmlText<'a>) -> (r: Self)
        ensures
            r.attributes@ == Seq::<AttrView>::empty(),
            r.value == value,
    {
        Self { attributes: AttributeMap::new(), value }
    }

    pub fn set_attribute(&mut self, name: AttributeName, value: AttributeValue)
        ensures
            final(self).attributes@ == spec_set_entry(old(self).attributes@, name@, value@),
            final(self).value == old(self).value,
    {
        self.attributes.set(name, value);
    }

    /// The attribute map itself, open for editing.
    pub fn get_mut_attributes(&mut self) -> &mut AttributeMap {
        &mut self.attributes
    }
}

impl<'a> Serialize for Summary<'a> {
    open spec fn rendered(&self, ns: Option<Seq<char>>, m: WriterModel) -> WriterModel {
        text_node_rendered(m, "summary"@, ns, self.attributes@, self.value)
    }

    open spec fn accepts(&self, ns: Option<Seq<char>>) -> bool {
        true
    }

    fn serialize<W: Write>(
        &self,
        serializer: &mut XmlSerializer<W>,
        namespace: Option<&str>,
    ) -> (r: Result<(), XmlSerializeError>) {
        serialize_text_node(serializer, "summary", namespace, &self.attributes, &self.value)
    }
}

/// What an entry's content holds: inline text, a link to the content,
/// or inlined media of a declared type.
pub enum ContentValue<'a> {
    TextContent { text: XmlText<'a> },
    LinkContent { media_type: &'a str, src: &'a str },
    InlinedMedia { media_type: &'a str, data: &'a str },
}

/// An entry's content.
pub struct Content<'a> {
    pub value: ContentValue<'a>,
    pub attributes: AttributeMap,
}

impl<'a> Content<'a> {
    pub fn new(value: ContentValue<'a>) -> (r: Self)
        ensures
            r.attributes@ == Seq::<AttrView>::empty(),
            r.value == value,
    {
        Self { attributes: AttributeMap::new(), value }
    }

    pub fn set_attribute(&mut self, name: AttributeName, value: AttributeValue)
        ensures
            final(self).attributes@ == spec_set_entry(old(self).attributes@, name@, value@),
            final(self).value == old(self).value,
    {
        self.attributes.set(name, value);
    }

    /// The attribute map itself, open for editing.
    pub fn get_mut_attributes(&mut self) -> &mut AttributeMap {
        &mut self.attributes
    }
}

impl<'a> Serialize for Content<'a> {
    open spec fn rendered(&self, ns: Option<Seq<char>>, m: WriterModel) -> WriterModel {
        match self.value {
            ContentValue::TextContent { text } => text_node_rendered(
                m,
                "content"@,
                ns,
                self.attributes@,
                text,
            ),
            ContentValue::LinkContent { media_type, src } => {
                let attrs = spec_set_entry(
                    spec_set_entry(self.attributes@, "type"@, media_type@),
                    "src"@,
                    src@,
                );
                element_empty(m, "content"@, ns, attrs)
            },
            ContentValue::InlinedMedia { media_type, data } => {
                let attrs = spec_set_entry(self.attributes@, "type"@, media_type@);
                element_close(
                    step_write_line(
                        escaped_text_step(
                            element_open(m, "content"@, ns, attrs),
                            data.spec_bytes(),
                        ),
                        Seq::empty(),
                    ),
                    "content"@,
                    ns,
                )
            },
        }
    }

    open spec fn accepts(&self, ns: Option<Seq<char>>) -> bool {
        true
    }

    fn serialize<W: Write>(
        &self,
        serializer: &mut XmlSerializer<W>,
        namespace: Option<&str>,
    ) -> (r: Result<(), XmlSerializeError>) {
        match &self.value {
            ContentValue::TextContent { text } => serialize_text_node(
                serializer,
                "content",
                namespace,
                &self.attributes,
                text,
            ),
            ContentValue::LinkContent { media_type, src } => {
                let mut attributes = AttributeMap::new_from(&self.attributes);
                attributes.set(
                    AttributeName::unchecked_new("type"),
                    AttributeValue::new(media_type),
                );
                attributes.set(AttributeName::unchecked_new("src"), AttributeValue::new(src));
                serializer.serialize_empty_element("content", namespace, Some(&attributes))?;
                Ok(())
            },
            ContentValue::InlinedMedia { media_type, data } => {
                let mut attributes = AttributeMap::new_from(&self.attributes);
                attributes.set(
                    AttributeName::unchecked_new("type"),
                    AttributeValue::new(media_type),
                );
                let content = serializer.serialize_element(
                    "content",
                    namespace,
                    Some(&attributes),
                )?;
                content.serialize_escaped_str(serializer, data)?;
                Ok(())
            },
        }
    }
}

/// The last-updated stamp of a feed or entry.
pub struct Updated {
    pub attributes: AttributeMap,
    pub value: TimeStamp,
}

impl Serialize for Updated {
    open spec fn rendered(&self, ns: Option<Seq<char>>, m: WriterModel) -> WriterModel {
        element_close(
            step_write_line(
                element_open(m, "updated"@, ns, self.attributes@),
                vstd::utf8::encode_utf8(spec_format_chars(self.value)),
            ),
            "updated"@,
            ns,
        )
    }

    open spec fn accepts(&self, ns: Option<Seq<char>>) -> bool {
        true
    }

    fn serialize<W: Write>(
        &self,
        serializer: &mut XmlSerializer<W>,
        namespace: Option<&str>,
    ) -> (r: Result<(), XmlSerializeError>) {
        let updated = serializer.serialize_element("updated", namespace, Some(&self.attributes))?;
        let text = self.value.to_string();
        updated.serialize_str(serializer, text.as_str())?;
        Ok(())
    }
}

} // verus!
