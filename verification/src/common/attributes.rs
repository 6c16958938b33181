use vstd::prelude::*;

use crate::error::InvalidAttributeName;
use crate::strbytes::str_eq;
use crate::utils::xml_name_token::is_valid_name;
use crate::utils::xml_name_token::spec_valid_name;

verus! {

/// An attribute name, validated on entry against the name-token
/// grammar.
#[derive(Debug, PartialEq, Eq)]
pub struct AttributeName {
    name: String,
}

/// An attribute value.
#[derive(Debug, PartialEq, Eq)]
pub struct AttributeValue {
    value: String,
}

/// One name/value pair of an element.
pub struct Attribute {
    pub name: AttributeName,
    pub value: AttributeValue,
}

/// The mathematical shadow of one attribute.
pub ghost struct AttrView {
    pub name: Seq<char>,
    pub value: Seq<char>,
}

impl View for AttributeName {
    type V = Seq<char>;

    closed spec fn view(&self) -> Seq<char> {
        self.name@
    }
}

impl View for AttributeValue {
    type V = Seq<char>;

    closed spec fn view(&self) -> Seq<char> {
        self.value@
    }
}

impl View for Attribute {
    type V = AttrView;

    open spec fn view(&self) -> AttrView {
        AttrView { name: self.name@, value: self.value@ }
    }
}

impl Clone for AttributeName {
    fn clone(&self) -> (r: Self)
        ensures
            r@ == self@,
    {
        AttributeName { name: self.name.clone() }
    }
}

impl Clone for AttributeValue {
    fn clone(&self) -> (r: Self)
        ensures
            r@ == self@,
    {
        AttributeValue { value: self.value.clone() }
    }
}

impl Clone for Attribute {
    fn clone(&self) -> (r: Self)
        ensures
            r@ == self@,
    {
        Attribute { name: self.name.clone(), value: self.value.clone() }
    }
}

impl AttributeName {
    /// Accepts a name exactly when it is a valid name token: rejected
    /// names never reach an attribute map.
    pub fn new(name: &str) -> (r: Result<Self, InvalidAttributeName>)
        ensures
            match r {
                Ok(n) => n@ == name@ && spec_valid_name(name@),
                Err(e) => !spec_valid_name(name@),
            },
    {
        if is_valid_name(name) {
            Ok(Self { name: name.to_owned() })
        } else {
            Err(InvalidAttributeName)
        }
    }

    /// Skips the name check for internal, well-known attribute names.
    pub fn unchecked_new(name: &str) -> (r: Self)
        ensures
            r@ == name@,
    {
        Self { name: name.to_owned() }
    }

    pub fn get(&self) -> (r: &str)
        ensures
            r@ == self@,
    {
        self.name.as_str()
    }
}

impl AttributeValue {
    pub fn new(value: &str) -> (r: Self)
        ensures
            r@ == value@,
    {
        Self { value: value.to_owned() }
    }

    pub fn get(&self) -> (r: &str)
        ensures
            r@ == self@,
    {
        self.value.as_str()
    }

    pub fn set(&mut self, new_value: &str)
        ensures
            final(self)@ == new_value@,
    {
        self.value = new_value.to_owned();
    }
}

/// A small ordered collection of attributes: insertion order preserved,
/// one entry per name, `set` overwriting in place.
pub struct AttributeMap {
    // a plain vector, since the expected entry count is small
    inner: Vec<Attribute>,
}

impl View for AttributeMap {
    type V = Seq<AttrView>;

    closed spec fn view(&self) -> Seq<AttrView> {
        Seq::new(self.inner@.len(), |i: int| self.inner@[i]@)
    }
}

/// What `set` does to the entries: the first entry carrying the name is
/// overwritten in place, or a fresh entry is appended.
pub open spec fn spec_set_entry(m: Seq<AttrView>, n: Seq<char>, v: Seq<char>) -> Seq<AttrView>
    decreases m.len(),
{
    if m.len() == 0 {
        seq![AttrView { name: n, value: v }]
    } else if m[0].name == n {
        seq![AttrView { name: n, value: v }] + m.drop_first()
    } else {
        seq![m[0]] + spec_set_entry(m.drop_first(), n, v)
    }
}

/// Setting an optional value: no entry is touched when there is none.
pub open spec fn spec_set_opt(m: Seq<AttrView>, n: Seq<char>, v: Option<Seq<char>>) -> Seq<
    AttrView,
> {
    match v {
        Some(v) => spec_set_entry(m, n, v),
        None => m,
    }
}

/// Entries untouched by `set` pass through unchanged up to the first
/// match.
pub proof fn lemma_set_entry_shape(m: Seq<AttrView>, n: Seq<char>, v: Seq<char>, i: int)
    requires
        0 <= i <= m.len(),
        forall|l: int| 0 <= l < i ==> (#[trigger] m[l]).name != n,
    ensures
        spec_set_entry(m, n, v) == m.take(i) + spec_set_entry(m.skip(i), n, v),
    decreases i,
{
    if i == 0 {
        assert(m.skip(0) =~= m);
        assert(m.take(0) + spec_set_entry(m, n, v) =~= spec_set_entry(m, n, v));
    } else {
        assert(m[0].name != n);
        assert(m.drop_first() =~= m.skip(1));
        lemma_set_entry_shape(m.drop_first(), n, v, i - 1);
        assert(m.drop_first().take(i - 1) =~= m.take(i).drop_first());
        assert(m.drop_first().skip(i - 1) =~= m.skip(i));
        assert(spec_set_entry(m, n, v) == seq![m[0]] + spec_set_entry(m.drop_first(), n, v));
        assert(seq![m[0]] + (m.drop_first().take(i - 1) + spec_set_entry(m.skip(i), n, v)) =~= m.take(
            i,
        ) + spec_set_entry(m.skip(i), n, v));
    }
}

/// `set` keeps names unique.
pub proof fn lemma_set_entry_distinct(m: Seq<AttrView>, n: Seq<char>, v: Seq<char>)
    requires
        distinct_names(m),
    ensures
        distinct_names(spec_set_entry(m, n, v)),
    decreases m.len(),
{
    let r = spec_set_entry(m, n, v);
    if m.len() == 0 {
    } else if m[0].name == n {
        assert forall|a: int, b: int| 0 <= a < b < r.len() implies (#[trigger] r[a]).name
            != (#[trigger] r[b]).name by {
            assert(b >= 1);
            assert(r[b] == m[b]);
            if a >= 1 {
                assert(r[a] == m[a]);
            }
        }
    } else {
        assert(distinct_names(m.drop_first())) by {
            assert forall|a: int, b: int|
                0 <= a < b < m.drop_first().len() implies (#[trigger] m.drop_first()[a]).name
                != (#[trigger] m.drop_first()[b]).name by {
                assert(m[a + 1].name != m[b + 1].name);
            }
        }
        lemma_set_entry_distinct(m.drop_first(), n, v);
        let rd = spec_set_entry(m.drop_first(), n, v);
        assert(r == seq![m[0]] + rd);
        assert forall|a: int, b: int| 0 <= a < b < r.len() implies (#[trigger] r[a]).name
            != (#[trigger] r[b]).name by {
            if a == 0 {
                assert(r[b] == rd[b - 1]);
                lemma_set_entry_member(m.drop_first(), n, v, b - 1);
            } else {
                assert(r[a] == rd[a - 1]);
                assert(r[b] == rd[b - 1]);
            }
        }
    }
}

/// Every entry after a `set` carries either an old name or the set one.
pub proof fn lemma_set_entry_member(m: Seq<AttrView>, n: Seq<char>, v: Seq<char>, k: int)
    requires
        0 <= k < spec_set_entry(m, n, v).len(),
    ensures
        spec_set_entry(m, n, v)[k].name == n || exists|j: int|
            0 <= j < m.len() && (#[trigger] m[j]).name == spec_set_entry(m, n, v)[k].name,
    decreases m.len(),
{
    let r = spec_set_entry(m, n, v);
    if m.len() == 0 {
    } else if m[0].name == n {
        if k >= 1 {
            assert(r[k] == m[k]);
        }
    } else {
        if k == 0 {
            assert(r[0] == m[0]);
        } else {
            let rd = spec_set_entry(m.drop_first(), n, v);
            assert(r[k] == rd[k - 1]);
            lemma_set_entry_member(m.drop_first(), n, v, k - 1);
            if rd[k - 1].name != n {
                let j = choose|j: int|
                    0 <= j < m.drop_first().len() && (#[trigger] m.drop_first()[j]).name == rd[k
                        - 1].name;
                assert(m[j + 1].name == rd[k - 1].name);
            }
        }
    }
}

/// `set` applied for every entry of another map, in its order.
pub open spec fn spec_set_all(m: Seq<AttrView>, other: Seq<AttrView>) -> Seq<AttrView>
    decreases other.len(),
{
    if other.len() == 0 {
        m
    } else {
        spec_set_entry(
            spec_set_all(m, other.drop_last()),
            other.last().name,
            other.last().value,
        )
    }
}

/// Names are unique: the invariant that `set` maintains.
pub open spec fn distinct_names(m: Seq<AttrView>) -> bool {
    forall|i: int, j: int| 0 <= i < j < m.len() ==> (#[trigger] m[i]).name != (#[trigger] m[j]).name
}

/// A borrowing cursor over the entries of an [`AttributeMap`], in their
/// stored order.
pub struct AttributeMapIter<'a> {
    map: &'a AttributeMap,
    pos: usize,
}

impl<'a> AttributeMapIter<'a> {
    /// How far the cursor has come.
    pub closed spec fn pos(&self) -> int {
        self.pos as int
    }

    /// The map the cursor walks.
    pub closed spec fn entries(&self) -> Seq<AttrView> {
        self.map@
    }

    pub closed spec fn wf(&self) -> bool {
        self.pos <= self.map@.len()
    }

    /// Hands out the next attribute, in stored order.
    pub fn next(&mut self) -> (r: Option<&'a Attribute>)
        requires
            old(self).wf(),
        ensures
            final(self).wf(),
            final(self).entries() == old(self).entries(),
            ({
                if old(self).pos() < old(self).entries().len() {
                    &&& r matches Some(a) && a@ == old(self).entries()[old(self).pos()]
                    &&& final(self).pos() == old(self).pos() + 1
                } else {
                    &&& r is None
                    &&& final(self).pos() == old(self).pos()
                }
            }),
    {
        if self.pos < self.map.inner.len() {
            let a = &self.map.inner[self.pos];
            self.pos += 1;
            Some(a)
        } else {
            None
        }
    }
}

impl AttributeMap {
    pub fn new() -> (r: Self)
        ensures
            r@ == Seq::<AttrView>::empty(),
    {
        let r = Self { inner: Vec::new() };
        proof {
            assert(r@ =~= Seq::<AttrView>::empty());
        }
        r
    }

    pub fn with_capacity(capacity: usize) -> (r: Self)
        ensures
            r@ == Seq::<AttrView>::empty(),
    {
        let r = Self { inner: Vec::with_capacity(capacity) };
        proof {
            assert(r@ =~= Seq::<AttrView>::empty());
        }
        r
    }

    /// A fresh map with the same entries in the same order.
    #[verifier::loop_isolation(false)]
    pub fn new_from(other: &Self) -> (r: Self)
        ensures
            r@ == other@,
    {
        if other.inner.is_empty() {
            let r = Self::new();
            proof {
                assert(r@ =~= other@);
            }
            r
        } else {
            let mut inner: Vec<Attribute> = Vec::new();
            let mut i: usize = 0;
            while i < other.inner.len()
                invariant
                    0 <= i <= other.inner@.len(),
                    inner@.len() == i,
                    forall|j: int| 0 <= j < i ==> (#[trigger] inner@[j])@ == other@[j],
                decreases other.inner@.len() - i,
            {
                inner.push(other.inner[i].clone());
                i += 1;
            }
            let r = Self { inner };
            proof {
                assert(r@ =~= other@);
            }
            r
        }
    }

    pub fn len(&self) -> (r: usize)
        ensures
            r == self@.len(),
    {
        self.inner.len()
    }

    pub fn is_empty(&self) -> (r: bool)
        ensures
            r == (self@.len() == 0),
    {
        self.inner.is_empty()
    }

    /// Reads the entry at a position, in stored order.
    pub fn get_at(&self, i: usize) -> (r: &Attribute)
        requires
            i < self@.len(),
        ensures
            r@ == self@[i as int],
    {
        &self.inner[i]
    }

    /// Writes an attribute: overwrites the value in place when the name
    /// is already present, appends otherwise. Insertion order of names
    /// is preserved; this is what keeps names unique.
    #[verifier::rlimit(50)]
    #[verifier::loop_isolation(false)]
    pub fn set(&mut self, name: AttributeName, value: AttributeValue)
        ensures
            final(self)@ == spec_set_entry(old(self)@, name@, value@),
            distinct_names(old(self)@) ==> distinct_names(final(self)@),
    {
        let ghost m = self@;
        let mut i: usize = 0;
        while i < self.inner.len()
            invariant
                0 <= i <= self.inner@.len(),
                self@ == m,
                self.inner@.len() == m.len(),
                forall|j: int| 0 <= j < i ==> (#[trigger] m[j]).name != name@,
            decreases self.inner@.len() - i,
        {
            proof {
                assert(m[i as int] == self.inner@[i as int]@);
            }
            let hit = str_eq(self.inner[i].name.get(), name.get());
            if hit {
                let kept = self.inner.remove(i);
                self.inner.insert(i, Attribute { name: kept.name, value });
                proof {
                    assert(m[i as int].name == name@);
                    lemma_set_entry_shape(m, name@, value@, i as int);
                    assert(m.skip(i as int)[0] == m[i as int]);
                    assert(spec_set_entry(m.skip(i as int), name@, value@) == seq![
                        AttrView { name: name@, value: value@ },
                    ] + m.skip(i as int).drop_first());
                    assert(m.skip(i as int).drop_first() =~= m.skip(i + 1));
                    assert(self@ =~= m.take(i as int) + seq![
                        AttrView { name: name@, value: value@ },
                    ] + m.skip(i + 1));
                    assert(self@ =~= spec_set_entry(m, name@, value@));
                    if distinct_names(m) {
                        lemma_set_entry_distinct(m, name@, value@);
                    }
                }
                return ;
            }
            i += 1;
        }
        self.inner.push(Attribute { name, value });
        proof {
            lemma_set_entry_shape(m, name@, value@, m.len() as int);
            assert(m.skip(m.len() as int) =~= Seq::<AttrView>::empty());
            assert(self@ =~= m.take(m.len() as int) + seq![
                AttrView { name: name@, value: value@ },
            ]);
            assert(m.take(m.len() as int) =~= m);
            assert(self@ =~= spec_set_entry(m, name@, value@));
            if distinct_names(m) {
                lemma_set_entry_distinct(m, name@, value@);
            }
        }
    }

    /// Looks a value up by name: the first entry carrying the name, or
    /// `None` when no entry does.
    #[verifier::rlimit(50)]
    #[verifier::loop_isolation(false)]
    pub fn get(&self, name: &str) -> (r: Option<&AttributeValue>)
        ensures
            ({
                let m = self@;
                match r {
                    Some(v) => exists|j: int|
                        0 <= j < m.len() && (#[trigger] m[j]).name == name@ && v@ == ({
                            let j = choose|j: int|
                                0 <= j < m.len() && (#[trigger] m[j]).name == name@ && (forall|
                                    l: int,
                                |
                                    0 <= l < j ==> (#[trigger] m[l]).name != name@);
                            m[j].value
                        }),
                    None => forall|j: int| 0 <= j < m.len() ==> (#[trigger] m[j]).name != name@,
                }
            }),
    {
        let ghost m = self@;
        let mut i: usize = 0;
        while i < self.inner.len()
            invariant
                0 <= i <= m.len(),
                self.inner@.len() == m.len(),
                forall|j: int| 0 <= j < i ==> (#[trigger] m[j]).name != name@,
            decreases m.len() - i,
        {
            proof {
                assert(m[i as int] == self.inner@[i as int]@);
            }
            if str_eq(self.inner[i].name.get(), name) {
                let v = &self.inner[i].value;
                proof {
                    let jw = choose|j: int|
                        0 <= j < m.len() && (#[trigger] m[j]).name == name@ && (forall|l: int|
                            0 <= l < j ==> (#[trigger] m[l]).name != name@);
                    assert(m[i as int].name == name@);
                    assert(jw == i);
                }
                return Some(v);
            }
            i += 1;
        }
        None
    }

    /// A cursor over the entries, in stored order.
    pub fn iter<'a>(&'a self) -> (r: AttributeMapIter<'a>)
        ensures
            r.wf(),
            r.entries() == self@,
            r.pos() == 0,
    {
        AttributeMapIter { map: self, pos: 0 }
    }

    /// Copies every entry of `other` into this map, in `other`'s order,
    /// by the same overwrite-or-append rule as `set`.
    #[verifier::loop_isolation(false)]
    pub fn set_from(&mut self, other: &Self)
        ensures
            final(self)@ == spec_set_all(old(self)@, other@),
    {
        let mut i: usize = 0;
        while i < other.inner.len()
            invariant
                0 <= i <= other.inner@.len(),
                other.inner@.len() == other@.len(),
                self@ == spec_set_all(old(self)@, other@.take(i as int)),
            decreases other.inner@.len() - i,
        {
            let entry = other.get_at(i);
            let nm = entry.name.clone();
            let vl = entry.value.clone();
            self.set(nm, vl);
            proof {
                assert(other@.take(i + 1).drop_last() =~= other@.take(i as int));
                assert(other@.take(i + 1).last() == other@[i as int]);
            }
            i += 1;
        }
        proof {
            assert(other@.take(other@.len() as int) =~= other@);
        }
    }
}

} // verus!
