use vstd::prelude::*;

use crate::atom::metadata::Author;
use crate::atom::metadata::Category;
use crate::atom::metadata::Content;
use crate::atom::metadata::Contributor;
use crate::atom::metadata::Id;
use crate::atom::metadata::Link;
use crate::atom::metadata::Rights;
use crate::atom::metadata::Summary;
use crate::atom::metadata::Title;
use crate::atom::metadata::Updated;
use crate::atom::render_all;
use crate::common::attributes::spec_set_entry;
use crate::common::attributes::AttrView;
use crate::common::attributes::AttributeMap;
use crate::common::attributes::AttributeName;
use crate::common::attributes::AttributeValue;
use crate::common::timestamp::TimeStamp;
use crate::common::XmlText;
use crate::error::XmlSerializeError;
use crate::serializer::element_close;
use crate::serializer::element_open;
use crate::serializer::Serialize;
use crate::serializer::Write;
use crate::serializer::WriterModel;
use crate::serializer::XmlSerializer;

verus! {

/// One entry of a feed.
pub struct Entry<'a> {
    pub attributes: AttributeMap,
    pub authors: Vec<Author<'a>>,
    pub categories: Vec<Category<'a>>,
    pub content: Option<Content<'a>>,
    pub contributors: Vec<Contributor<'a>>,
    pub id: Id<'a>,
    pub links: Vec<Link<'a>>,
    pub summary: Option<Summary<'a>>,
    pub title: Title<'a>,
    pub updated: Updated,
    pub rights: Option<Rights<'a>>,
}

/// The sink state after a whole entry: the children in their fixed
/// order, then title, id and updated, then the closing tag.
pub open spec fn entry_rendered(e: &Entry, ns: Option<Seq<char>>, m: WriterModel) -> WriterModel {
    let m1 = element_open(m, "entry"@, ns, e.attributes@);
    let m2 = render_all(e.authors@, ns, m1);
    let m3 = render_all(e.contributors@, ns, m2);
    let m4 = render_all(e.categories@, ns, m3);
    let m5 = render_all(e.links@, ns, m4);
    let m6 = match e.content {
        Some(c) => c.rendered(ns, m5),
        None => m5,
    };
    let m7 = match e.summary {
        Some(s) => s.rendered(ns, m6),
        None => m6,
    };
    let m8 = match e.rights {
        Some(rg) => rg.rendered(ns, m7),
        None => m7,
    };
    let m9 = e.title.rendered(ns, m8);
    let m10 = e.id.rendered(ns, m9);
    let m11 = e.updated.rendered(ns, m10);
    element_close(m11, "entry"@, ns)
}

/// Writes each value of a vector in order, stopping at the first error.
#[verifier::loop_isolation(false)]
pub fn serialize_all<W: Write, V: Serialize>(
    serializer: &mut XmlSerializer<W>,
    items: &Vec<V>,
    namespace: Option<&str>,
) -> (r: Result<(), XmlSerializeError>)
    ensures
        final(serializer).writer.wm().pad == old(serializer).writer.wm().pad,
        final(serializer).writer.wm().tabw == old(serializer).writer.wm().tabw,
        final(serializer).writer.wm().counts == old(serializer).writer.wm().counts,
        final(serializer).writer.wm().eol == old(serializer).writer.wm().eol,
        final(serializer).writer.wm().infallible == old(serializer).writer.wm().infallible,
        (old(serializer).writer.wm().infallible && (forall|i: int|
            0 <= i < items@.len() ==> (#[trigger] items@[i]).accepts(namespace.deep_view())))
            ==> r is Ok,
        r matches Err(e) ==> (e == XmlSerializeError::IOError || (e
            == XmlSerializeError::InvalidNamespace && (exists|i: int|
            0 <= i < items@.len() && !(#[trigger] items@[i]).accepts(namespace.deep_view())))),
        r is Ok ==> final(serializer).writer.wm() == render_all(
            items@,
            namespace.deep_view(),
            old(serializer).writer.wm(),
        ),
{
    let ghost m0 = old(serializer).writer.wm();
    let ghost nsv = namespace.deep_view();
    let mut i: usize = 0;
    proof {
        assert(render_all(items@.take(0), nsv, m0) == m0);
    }
    while i < items.len()
        invariant
            0 <= i <= items@.len(),
            serializer.writer.wm() == render_all(items@.take(i as int), nsv, m0),
            serializer.writer.wm().pad == m0.pad,
            serializer.writer.wm().tabw == m0.tabw,
            serializer.writer.wm().counts == m0.counts,
            serializer.writer.wm().eol == m0.eol,
            serializer.writer.wm().infallible == m0.infallible,
        decreases items@.len() - i,
    {
        let rr = items[i].serialize(serializer, namespace);
        if rr.is_err() {
            proof {
                if !items@[i as int].accepts(nsv) {
                    assert(exists|j: int|
                        0 <= j < items@.len() && !(#[trigger] items@[j]).accepts(nsv));
                }
            }
            return rr;
        }
        proof {
            assert(items@.take(i + 1).drop_last() =~= items@.take(i as int));
            assert(items@.take(i + 1).last() == items@[i as int]);
        }
        i += 1;
    }
    proof {
        assert(items@.take(items@.len() as int) =~= items@);
    }
    Ok(())
}

impl<'a> Serialize for Entry<'a> {
    open spec fn rendered(&self, ns: Option<Seq<char>>, m: WriterModel) -> WriterModel {
        entry_rendered(self, ns, m)
    }

    open spec fn accepts(&self, ns: Option<Seq<char>>) -> bool {
        true
    }

    fn serialize<W: Write>(
        &self,
        serializer: &mut XmlSerializer<W>,
        namespace: Option<&str>,
    ) -> (r: Result<(), XmlSerializeError>) {
        let entry = serializer.serialize_element("entry", namespace, Some(&self.attributes))?;
        serialize_all(serializer, &self.authors, namespace)?;
        serialize_all(serializer, &self.contributors, namespace)?;
        serialize_all(serializer, &self.categories, namespace)?;
        serialize_all(serializer, &self.links, namespace)?;
        match &self.content {
            Some(c) => {
                entry.serialize(serializer, c, namespace)?;
            },
            None => {
            },
        }
        match &self.summary {
            Some(s) => {
                entry.serialize(serializer, s, namespace)?;
            },
            None => {
            },
        }
        match &self.rights {
            Some(rg) => {
                entry.serialize(serializer, rg, namespace)?;
            },
            None => {
            },
        }
        entry.serialize(serializer, &self.title, namespace)?;
        entry.serialize(serializer, &self.id, namespace)?;
        entry.serialize(serializer, &self.updated, namespace)?;
        entry.end(serializer)?;
        Ok(())
    }
}

impl<'a> Entry<'a> {
    /// A fresh entry holding only the three required pieces: an
    /// identifier, a title and the last-updated stamp.
    pub fn new(id: &'a str, title: XmlText<'a>, updated: TimeStamp) -> (r: Self)
        ensures
            r.attributes@ == Seq::<AttrView>::empty(),
            r.authors@.len() == 0,
            r.categories@.len() == 0,
            r.contributors@.len() == 0,
            r.id.attributes@ == Seq::<AttrView>::empty(),
            r.id.value == id,
            r.links@.len() == 0,
            r.rights is None,
            r.content is None,
            r.summary is None,
            r.title.attributes@ == Seq::<AttrView>::empty(),
            r.title.value == title,
            r.updated.attributes@ == Seq::<AttrView>::empty(),
            r.updated.value == updated,
    {
        Self {
            attributes: AttributeMap::new(),
            authors: Vec::new(),
            categories: Vec::new(),
            contributors: Vec::new(),
            id: Id::new(id),
            links: Vec::new(),
            rights: None,
            content: None,
            summary: None,
            title: Title::new(title),
            updated: Updated { attributes: AttributeMap::new(), value: updated },
        }
    }

    pub fn set_attribute(&mut self, name: AttributeName, value: AttributeValue)
        ensures
            final(self).attributes@ == spec_set_entry(old(self).attributes@, name@, value@),
    {
        self.attributes.set(name, value);
    }

    /// The attribute map itself, open for editing.
    pub fn get_mut_attributes(&mut self) -> &mut AttributeMap {
        &mut self.attributes
    }
}

} // verus!
