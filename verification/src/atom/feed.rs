use vstd::prelude::*;

use crate::atom::entry::serialize_all;
use crate::atom::entry::Entry;
use crate::atom::metadata::Author;
use crate::atom::metadata::Category;
use crate::atom::metadata::Contributor;
use crate::atom::metadata::Generator;
use crate::atom::metadata::Icon;
use crate::atom::metadata::Id;
use crate::atom::metadata::Link;
use crate::atom::metadata::Logo;
use crate::atom::metadata::Rights;
use crate::atom::metadata::SubTitle;
use crate::atom::metadata::Title;
use crate::atom::metadata::Updated;
use crate::atom::render_all;
use crate::common::attributes::spec_set_entry;
use crate::common::attributes::AttrView;
use crate::common::attributes::AttributeMap;
use crate::common::attributes::AttributeName;
use crate::common::attributes::AttributeValue;
use crate::common::timestamp::TimeStamp;
use crate::common::XmlText;
use crate::error::XmlSerializeError;
use crate::serializer::element_close;
use crate::serializer::element_open;
use crate::serializer::Serialize;
use crate::serializer::Write;
use crate::serializer::WriterModel;
use crate::serializer::XmlSerializer;
use crate::utils::xml_name_token::is_valid_name;
use crate::utils::xml_name_token::spec_valid_name;

verus! {

/// A whole feed: the document root.
pub struct Feed<'a> {
    pub attributes: AttributeMap,
    pub authors: Vec<Author<'a>>,
    pub categories: Vec<Category<'a>>,
    pub contributors: Vec<Contributor<'a>>,
    pub entries: Vec<Entry<'a>>,
    pub generator: Option<Generator<'a>>,
    pub icon: Option<Icon<'a>>,
    pub id: Id<'a>,
    pub links: Vec<Link<'a>>,
    pub logo: Option<Logo<'a>>,
    pub rights: Option<Rights<'a>>,
    pub subtitle: Option<SubTitle<'a>>,
    pub title: Title<'a>,
    pub updated: Updated,
}

/// The sink state after a whole feed: the children in their fixed
/// order, then title, id, updated and the entries, then the closing
/// tag.
pub open spec fn feed_rendered(f: &Feed, ns: Option<Seq<char>>, m: WriterModel) -> WriterModel {
    let m1 = element_open(m, "feed"@, ns, f.attributes@);
    let m2 = render_all(f.authors@, ns, m1);
    let m3 = render_all(f.contributors@, ns, m2);
    let m4 = render_all(f.categories@, ns, m3);
    let m5 = render_all(f.links@, ns, m4);
    let m6 = match f.generator {
        Some(g) => g.rendered(ns, m5),
        None => m5,
    };
    let m7 = match f.subtitle {
        Some(s) => s.rendered(ns, m6),
        None => m6,
    };
    let m8 = match f.logo {
        Some(l) => l.rendered(ns, m7),
        None => m7,
    };
    let m9 = match f.icon {
        Some(i) => i.rendered(ns, m8),
        None => m8,
    };
    let m10 = match f.rights {
        Some(rg) => rg.rendered(ns, m9),
        None => m9,
    };
    let m11 = f.title.rendered(ns, m10);
    let m12 = f.id.rendered(ns, m11);
    let m13 = f.updated.rendered(ns, m12);
    let m14 = render_all(f.entries@, ns, m13);
    element_close(m14, "feed"@, ns)
}

impl<'a> Serialize for Feed<'a> {
    open spec fn rendered(&self, ns: Option<Seq<char>>, m: WriterModel) -> WriterModel {
        feed_rendered(self, ns, m)
    }

    /// The root owes success only under a namespace prefix that passes
    /// the name grammar.
    open spec fn accepts(&self, ns: Option<Seq<char>>) -> bool {
        match ns {
            Some(n) => spec_valid_name(n),
            None => true,
        }
    }

    /// The namespace grammar is checked here, once, at the root: an
    /// invalid prefix aborts with `InvalidNamespace` before any byte is
    /// written.
    fn serialize<W: Write>(
        &self,
        serializer: &mut XmlSerializer<W>,
        namespace: Option<&str>,
    ) -> (r: Result<(), XmlSerializeError>)
        ensures
            (namespace matches Some(n) && !spec_valid_name(n@)) ==> (r == Err::<
                (),
                XmlSerializeError,
            >(XmlSerializeError::InvalidNamespace) && final(serializer).writer.wm() == old(
                serializer,
            ).writer.wm()),
    {
        match namespace {
            Some(name) => {
                if !is_valid_name(name) {
                    return Err(XmlSerializeError::InvalidNamespace);
                }
            },
            None => {
            },
        }
        let feed = serializer.serialize_element("feed", namespace, Some(&self.attributes))?;
        serialize_all(serializer, &self.authors, namespace)?;
        serialize_all(serializer, &self.contributors, namespace)?;
        serialize_all(serializer, &self.categories, namespace)?;
        serialize_all(serializer, &self.links, namespace)?;
        match &self.generator {
            Some(g) => {
                feed.serialize(serializer, g, namespace)?;
            },
            None => {
            },
        }
        match &self.subtitle {
            Some(s) => {
                feed.serialize(serializer, s, namespace)?;
            },
            None => {
            },
        }
        match &self.logo {
            Some(l) => {
                feed.serialize(serializer, l, namespace)?;
            },
            None => {
            },
        }
        match &self.icon {
            Some(i) => {
                feed.serialize(serializer, i, namespace)?;
            },
            None => {
            },
        }
        match &self.rights {
            Some(rg) => {
                feed.serialize(serializer, rg, namespace)?;
            },
            None => {
            },
        }
        feed.serialize(serializer, &self.title, namespace)?;
        feed.serialize(serializer, &self.id, namespace)?;
        feed.serialize(serializer, &self.updated, namespace)?;
        serialize_all(serializer, &self.entries, namespace)?;
        feed.end(serializer)?;
        Ok(())
    }
}

impl<'a> Feed<'a> {
    /// A fresh feed holding the three required pieces — an identifier,
    /// a title and the last-updated stamp — and this library's own
    /// generator mark.
    pub fn new(id: &'a str, title: XmlText<'a>, updated: TimeStamp) -> (r: Self)
        ensures
            r.attributes@ == Seq::<AttrView>::empty(),
            r.authors@.len() == 0,
            r.categories@.len() == 0,
            r.contributors@.len() == 0,
            r.entries@.len() == 0,
            r.generator matches Some(g) && g.attributes@ == Seq::<AttrView>::empty() && g.value@
                == "atom_syndication_format"@ && g.uri is None && g.version is None,
            r.icon is None,
            r.id.attributes@ == Seq::<AttrView>::empty(),
            r.id.value == id,
            r.links@.len() == 0,
            r.logo is None,
            r.rights is None,
            r.subtitle is None,
            r.title.attributes@ == Seq::<AttrView>::empty(),
            r.title.value == title,
            r.updated.attributes@ == Seq::<AttrView>::empty(),
            r.updated.value == updated,
    {
        Self {
            attributes: AttributeMap::new(),
            authors: Vec::new(),
            categories: Vec::new(),
            contributors: Vec::new(),
            entries: Vec::new(),
            generator: Some(Generator::default()),
            icon: None,
            id: Id::new(id),
            links: Vec::new(),
            logo: None,
            rights: None,
            subtitle: None,
            title: Title::new(title),
            updated: Updated { attributes: AttributeMap::new(), value: updated },
        }
    }

    pub fn set_attribute(&mut self, name: AttributeName, value: AttributeValue)
        ensures
            final(self).attributes@ == spec_set_entry(old(self).attributes@, name@, value@),
    {
        self.attributes.set(name, value);
    }

    /// The attribute map itself, open for editing.
    pub fn get_mut_attributes(&mut self) -> &mut AttributeMap {
        &mut self.attributes
    }
}

} // verus!
