pub mod formatter;

use vstd::prelude::*;
use vstd::string::StringSliceAdditionalSpecFns;
use vstd::utf8::encode_utf8;

use crate::common::attributes::AttrView;
use crate::common::attributes::AttributeMap;
use crate::error::XmlSerializeError;
use crate::escape::escape_bytes;
use crate::escape::escape_writer;
use crate::escape::xml_attr_needles;
use crate::escape::xml_text_needles;

verus! {

/// The abstract state of an output sink: the bytes written so far; the
/// indentation machinery — the padding byte, the width of one
/// indentation step, whether the level counter is live, the current
/// level, whether an indentation is pending before the next write, and
/// the line terminator — and whether the sink's writes can fail at all.
#[verifier::ext_equal]
pub ghost struct WriterModel {
    pub sink: Seq<u8>,
    pub pad: u8,
    pub tabw: usize,
    pub counts: bool,
    pub level: usize,
    pub pend: bool,
    pub eol: Seq<u8>,
    pub infallible: bool,
}

/// `n` copies of one byte.
pub open spec fn byte_run(b: u8, n: int) -> Seq<u8> {
    if n <= 0 {
        Seq::empty()
    } else {
        Seq::new(n as nat, |i: int| b)
    }
}

pub open spec fn sat_mul(a: usize, b: usize) -> usize {
    if a * b > usize::MAX {
        usize::MAX
    } else {
        (a * b) as usize
    }
}

pub open spec fn sat_inc(a: usize) -> usize {
    if a == usize::MAX {
        a
    } else {
        (a + 1) as usize
    }
}

pub open spec fn sat_dec(a: usize) -> usize {
    if a == 0 {
        0
    } else {
        (a - 1) as usize
    }
}

/// The indentation a sink would materialize right now: pending level
/// renderings only.
pub open spec fn model_indent(m: WriterModel) -> Seq<u8> {
    if m.pend {
        byte_run(m.pad, sat_mul(m.tabw, m.level) as int)
    } else {
        Seq::empty()
    }
}

/// The effect of `write`: any pending indentation, then the data.
pub open spec fn step_write(m: WriterModel, data: Seq<u8>) -> WriterModel {
    WriterModel { sink: m.sink + model_indent(m) + data, pend: false, ..m }
}

/// The effect of `write_line`: any pending indentation, the data, the
/// line terminator; afterwards an indentation is pending if the sink
/// terminates lines at all.
pub open spec fn step_write_line(m: WriterModel, data: Seq<u8>) -> WriterModel {
    WriterModel { sink: m.sink + model_indent(m) + data + m.eol, pend: m.eol.len() > 0, ..m }
}

pub open spec fn step_inc(m: WriterModel) -> WriterModel {
    WriterModel {
        level: if m.counts {
            sat_inc(m.level)
        } else {
            m.level
        },
        ..m
    }
}

pub open spec fn step_dec(m: WriterModel) -> WriterModel {
    WriterModel {
        level: if m.counts {
            sat_dec(m.level)
        } else {
            m.level
        },
        ..m
    }
}

pub open spec fn step_set_level(m: WriterModel, level: usize) -> WriterModel {
    WriterModel {
        level: if m.counts {
            level
        } else {
            m.level
        },
        ..m
    }
}

/// Two consecutive writes append the concatenation of their payloads.
pub proof fn lemma_step_write_merge(m: WriterModel, a: Seq<u8>, b: Seq<u8>)
    ensures
        step_write(step_write(m, a), b) == step_write(m, a + b),
{
    assert(step_write(step_write(m, a), b) =~= step_write(m, a + b));
}

/// The capability every output sink offers the serializer: raw writes,
/// line writes, and an indentation-level counter. A compact sink leaves
/// level, pending flag and terminator inert.
pub trait Write {
    /// The sink's abstract state.
    spec fn wm(&self) -> WriterModel;

    /// Writes text, materializing any pending indentation first. A
    /// failed write is a sink failure and nothing else; a sink that
    /// cannot fail must succeed.
    fn write(&mut self, data: &str) -> (r: Result<(), XmlSerializeError>)
        ensures
            r is Ok ==> final(self).wm() == step_write(old(self).wm(), data.spec_bytes()),
            old(self).wm().infallible ==> r is Ok,
            r matches Err(e) ==> e == XmlSerializeError::IOError,
            final(self).wm().pad == old(self).wm().pad,
            final(self).wm().tabw == old(self).wm().tabw,
            final(self).wm().counts == old(self).wm().counts,
            final(self).wm().eol == old(self).wm().eol,
            final(self).wm().infallible == old(self).wm().infallible,
    ;

    /// Writes text and ends the line, leaving indentation pending for
    /// the next write on an indenting sink. A failed write is a sink
    /// failure and nothing else; a sink that cannot fail must succeed.
    fn write_line(&mut self, data: &str) -> (r: Result<(), XmlSerializeError>)
        ensures
            r is Ok ==> final(self).wm() == step_write_line(old(self).wm(), data.spec_bytes()),
            old(self).wm().infallible ==> r is Ok,
            r matches Err(e) ==> e == XmlSerializeError::IOError,
            final(self).wm().pad == old(self).wm().pad,
            final(self).wm().tabw == old(self).wm().tabw,
            final(self).wm().counts == old(self).wm().counts,
            final(self).wm().eol == old(self).wm().eol,
            final(self).wm().infallible == old(self).wm().infallible,
    ;

    fn increment_level(&mut self)
        ensures
            final(self).wm() == step_inc(old(self).wm()),
    ;

    fn decrement_level(&mut self)
        ensures
            final(self).wm() == step_dec(old(self).wm()),
    ;

    fn set_level(&mut self, level: usize)
        ensures
            final(self).wm() == step_set_level(old(self).wm(), level),
    ;

    fn get_level(&self) -> (r: usize)
        ensures
            r == self.wm().level,
    ;
}


/// The bytes of a namespace prefix with its separating colon, or
/// nothing.
pub open spec fn opt_ns_bytes(ns: Option<Seq<char>>) -> Seq<u8> {
    match ns {
        Some(n) => encode_utf8(n) + seq![58u8],
        None => Seq::empty(),
    }
}

/// The rendered form of one attribute: a leading space, the name,
/// `="`, the attribute-escaped value, and the closing quote.
pub open spec fn attr_bytes(a: AttrView) -> Seq<u8> {
    seq![32u8] + encode_utf8(a.name) + seq![61u8, 34u8] + escape_bytes(
        encode_utf8(a.value),
        xml_attr_needles(),
    ) + seq![34u8]
}

/// The rendered attributes of an element, in stored order.
pub open spec fn attrs_bytes(attrs: Seq<AttrView>) -> Seq<u8>
    decreases attrs.len(),
{
    if attrs.len() == 0 {
        Seq::empty()
    } else {
        attrs_bytes(attrs.drop_last()) + attr_bytes(attrs.last())
    }
}

/// The attribute views behind an optional map.
pub open spec fn opt_attr_views(attrs: Option<&AttributeMap>) -> Seq<AttrView> {
    match attrs {
        Some(m) => m@,
        None => Seq::empty(),
    }
}

/// Everything of an opening tag before its closing `>` or `/>`: the
/// angle bracket, the optional prefix, the name, the attributes.
pub open spec fn open_tag_bytes(
    name: Seq<char>,
    ns: Option<Seq<char>>,
    attrs: Seq<AttrView>,
) -> Seq<u8> {
    seq![60u8] + opt_ns_bytes(ns) + encode_utf8(name) + attrs_bytes(attrs)
}

/// A closing tag.
pub open spec fn close_tag_bytes(name: Seq<char>, ns: Option<Seq<char>>) -> Seq<u8> {
    seq![60u8, 47u8] + opt_ns_bytes(ns) + encode_utf8(name) + seq![62u8]
}

/// The sink state after opening a non-empty element: the opening tag,
/// `>`, end of line, one more indentation level.
pub open spec fn element_open(
    m: WriterModel,
    name: Seq<char>,
    ns: Option<Seq<char>>,
    attrs: Seq<AttrView>,
) -> WriterModel {
    step_inc(step_write_line(step_write(m, open_tag_bytes(name, ns, attrs)), seq![62u8]))
}

/// The sink state after writing a whole empty element: the opening tag
/// closed with `/>` and end of line; the level never moves.
pub open spec fn element_empty(
    m: WriterModel,
    name: Seq<char>,
    ns: Option<Seq<char>>,
    attrs: Seq<AttrView>,
) -> WriterModel {
    step_write_line(step_write(m, open_tag_bytes(name, ns, attrs)), seq![47u8, 62u8])
}

/// The sink state after closing a non-empty element: one level down,
/// the closing tag, end of line.
pub open spec fn element_close(m: WriterModel, name: Seq<char>, ns: Option<Seq<char>>) -> WriterModel {
    step_write_line(step_write(step_dec(m), close_tag_bytes(name, ns)), Seq::empty())
}

/// The sink state after escaped text: nothing at all for empty text.
pub open spec fn escaped_text_step(m: WriterModel, v: Seq<u8>) -> WriterModel {
    if v.len() == 0 {
        m
    } else {
        step_write(m, escape_bytes(v, xml_text_needles()))
    }
}

proof fn lemma_ascii_lit_tag(s: &str)
    requires
        vstd::string::is_ascii(s),
    ensures
        s.spec_bytes() =~= Seq::new(s@.len(), |i: int| s@[i] as u8),
{
    broadcast use vstd::string::is_ascii_spec_bytes;

}

/// The byte values of the short punctuation literals of a tag.
proof fn lemma_tag_literals()
    ensures
        "<".spec_bytes() == seq![60u8],
        ":".spec_bytes() == seq![58u8],
        " ".spec_bytes() == seq![32u8],
        "=\"".spec_bytes() == seq![61u8, 34u8],
        "\"".spec_bytes() == seq![34u8],
        "/>".spec_bytes() == seq![47u8, 62u8],
        ">".spec_bytes() == seq![62u8],
        "</".spec_bytes() == seq![60u8, 47u8],
        "".spec_bytes() == Seq::<u8>::empty(),
{
    reveal_strlit("<");
    reveal_strlit(":");
    reveal_strlit(" ");
    reveal_strlit("=\"");
    reveal_strlit("\"");
    reveal_strlit("/>");
    reveal_strlit(">");
    reveal_strlit("</");
    reveal_strlit("");
    assert(vstd::string::is_ascii("<"));
    assert(vstd::string::is_ascii(":"));
    assert(vstd::string::is_ascii(" "));
    assert(vstd::string::is_ascii("=\""));
    assert(vstd::string::is_ascii("\""));
    assert(vstd::string::is_ascii("/>"));
    assert(vstd::string::is_ascii(">"));
    assert(vstd::string::is_ascii("</"));
    assert(vstd::string::is_ascii(""));
    lemma_ascii_lit_tag("<");
    lemma_ascii_lit_tag(":");
    lemma_ascii_lit_tag(" ");
    lemma_ascii_lit_tag("=\"");
    lemma_ascii_lit_tag("\"");
    lemma_ascii_lit_tag("/>");
    lemma_ascii_lit_tag(">");
    lemma_ascii_lit_tag("</");
    lemma_ascii_lit_tag("");
    assert("<".spec_bytes() =~= seq![60u8]);
    assert(":".spec_bytes() =~= seq![58u8]);
    assert(" ".spec_bytes() =~= seq![32u8]);
    assert("=\"".spec_bytes() =~= seq![61u8, 34u8]);
    assert("\"".spec_bytes() =~= seq![34u8]);
    assert("/>".spec_bytes() =~= seq![47u8, 62u8]);
    assert(">".spec_bytes() =~= seq![62u8]);
    assert("</".spec_bytes() =~= seq![60u8, 47u8]);
    assert("".spec_bytes() =~= Seq::<u8>::empty());
}

/// The attribute needle set is zero-free ASCII.
proof fn lemma_needle_facts()
    ensures
        !xml_attr_needles().contains(0u8),
        forall|i: int| 0 <= i < xml_attr_needles().len() ==> xml_attr_needles()[i] < 0x80,
        !xml_text_needles().contains(0u8),
        forall|i: int| 0 <= i < xml_text_needles().len() ==> xml_text_needles()[i] < 0x80,
{
    if xml_attr_needles().contains(0u8) {
        let i = choose|i: int|
            0 <= i < xml_attr_needles().len() && xml_attr_needles()[i] == 0u8;
        assert(false);
    }
    if xml_text_needles().contains(0u8) {
        let i = choose|i: int|
            0 <= i < xml_text_needles().len() && xml_text_needles()[i] == 0u8;
        assert(false);
    }
}

/// The attribute needle set as a fresh vector.
fn attr_pattern_vec() -> (r: Vec<u8>)
    ensures
        r@ == xml_attr_needles(),
{
    let mut v: Vec<u8> = Vec::new();
    v.push(60);
    v.push(62);
    v.push(38);
    v.push(34);
    proof {
        assert(v@ =~= xml_attr_needles());
    }
    v
}

/// The element-text needle set as a fresh vector.
fn text_pattern_vec() -> (r: Vec<u8>)
    ensures
        r@ == xml_text_needles(),
{
    let mut v: Vec<u8> = Vec::new();
    v.push(60);
    v.push(62);
    v.push(38);
    v.push(39);
    v.push(34);
    proof {
        assert(v@ =~= xml_text_needles());
    }
    v
}

/// Whether an element closes as `<name/>` or stays open for children.
#[derive(Clone, Copy)]
enum ElementType {
    Empty,
    NonEmpty,
}

/// A value that can write itself into the stream as XML. The spec
/// function `rendered` says exactly what the sink state becomes; the
/// executable `serialize` is held to it.
pub trait Serialize {
    /// The sink state after this value has written itself under the
    /// given namespace, starting from sink state `m`.
    spec fn rendered(&self, ns: Option<Seq<char>>, m: WriterModel) -> WriterModel;

    /// Whether this value owes success under the given namespace:
    /// true unless the value itself rejects the request before any
    /// byte is written, as the document root does for an invalid
    /// namespace prefix.
    spec fn accepts(&self, ns: Option<Seq<char>>) -> bool;

    /// Writes this value into the open stream. Success is owed when
    /// the value accepts the namespace and the sink cannot fail; the
    /// only errors are a sink failure or the value's own namespace
    /// rejection. On an error the write aborts part-way; bytes already
    /// written remain written.
    fn serialize<W: Write>(
        &self,
        serializer: &mut XmlSerializer<W>,
        namespace: Option<&str>,
    ) -> (r: Result<(), XmlSerializeError>)
        ensures
            final(serializer).writer.wm().pad == old(serializer).writer.wm().pad,
            final(serializer).writer.wm().tabw == old(serializer).writer.wm().tabw,
            final(serializer).writer.wm().counts == old(serializer).writer.wm().counts,
            final(serializer).writer.wm().eol == old(serializer).writer.wm().eol,
            final(serializer).writer.wm().infallible == old(serializer).writer.wm().infallible,
            (old(serializer).writer.wm().infallible && self.accepts(namespace.deep_view()))
                ==> r is Ok,
            r matches Err(e) ==> (e == XmlSerializeError::IOError || (e
                == XmlSerializeError::InvalidNamespace && !self.accepts(namespace.deep_view()))),
            r is Ok ==> final(serializer).writer.wm() == self.rendered(
                namespace.deep_view(),
                old(serializer).writer.wm(),
            ),
    ;
}

/// The streaming serializer: drives one sink through a single
/// depth-first pass over the document.
pub struct XmlSerializer<W: Write> {
    pub writer: W,
}

/// The handle to one open element: the state a `serialize_element` call
/// leaves behind, to be closed by `end`. Forgetting to call `end`
/// leaves the sink's indentation permanently off; that is the caller's
/// obligation, not checked here.
pub struct XmlElementSerializer {
    name: String,
    namespace: Option<String>,
}

impl XmlElementSerializer {
    /// The element name this handle will close with.
    pub closed spec fn name_view(&self) -> Seq<char> {
        self.name@
    }

    /// The namespace prefix this handle will close with.
    pub closed spec fn ns_view(&self) -> Option<Seq<char>> {
        self.namespace.deep_view()
    }
}

impl<W: Write> XmlSerializer<W> {
    pub fn new(writer: W) -> (r: Self)
        ensures
            r.writer == writer,
    {
        Self { writer }
    }

    /// Hands the sink back once serialization is over.
    pub fn into_writer(self) -> (r: W)
        ensures
            r == self.writer,
    {
        self.writer
    }

    /// Writes an opening tag: `<name` or `<ns:name`, the attributes in
    /// stored order with attribute-escaped values, then `/>` for an
    /// empty element or `>` (and one more indentation level) for one
    /// that stays open.
    #[verifier::loop_isolation(false)]
    #[verifier::rlimit(80)]
    fn create_element(
        &mut self,
        name: &str,
        namespace: Option<&str>,
        attributes: Option<&AttributeMap>,
        element_type: ElementType,
    ) -> (r: Result<(), XmlSerializeError>)
        ensures
            final(self).writer.wm().pad == old(self).writer.wm().pad,
            final(self).writer.wm().tabw == old(self).writer.wm().tabw,
            final(self).writer.wm().counts == old(self).writer.wm().counts,
            final(self).writer.wm().eol == old(self).writer.wm().eol,
            final(self).writer.wm().infallible == old(self).writer.wm().infallible,
            old(self).writer.wm().infallible ==> r is Ok,
            r matches Err(e) ==> e == XmlSerializeError::IOError,
            r is Ok ==> final(self).writer.wm() == (match element_type {
                ElementType::Empty => element_empty(
                    old(self).writer.wm(),
                    name@,
                    namespace.deep_view(),
                    opt_attr_views(attributes),
                ),
                ElementType::NonEmpty => element_open(
                    old(self).writer.wm(),
                    name@,
                    namespace.deep_view(),
                    opt_attr_views(attributes),
                ),
            }),
    {
        let ghost m0 = old(self).writer.wm();
        let ghost nsv = namespace.deep_view();
        let ghost avs = opt_attr_views(attributes);
        proof {
            lemma_tag_literals();
            lemma_needle_facts();
        }
        let rr = self.writer.write("<");
        if rr.is_err() {
            return rr;
        }
        match namespace {
            Some(ns) => {
                let rr = self.writer.write(ns);
                if rr.is_err() {
                    return rr;
                }
                let rr = self.writer.write(":");
                if rr.is_err() {
                    return rr;
                }
                proof {
                    lemma_step_write_merge(m0, "<".spec_bytes(), ns.spec_bytes());
                    lemma_step_write_merge(m0, "<".spec_bytes() + ns.spec_bytes(), ":".spec_bytes());
                    assert("<".spec_bytes() + ns.spec_bytes() + ":".spec_bytes() =~= seq![60u8]
                        + opt_ns_bytes(nsv));
                }
            },
            None => {
                proof {
                    assert("<".spec_bytes() =~= seq![60u8] + opt_ns_bytes(nsv));
                }
            },
        }
        let ghost lead = seq![60u8] + opt_ns_bytes(nsv);
        let rr = self.writer.write(name);
        if rr.is_err() {
            return rr;
        }
        proof {
            lemma_step_write_merge(m0, lead, name.spec_bytes());
        }
        let ghost pre = lead + encode_utf8(name@);
        match attributes {
            Some(attrs) => {
                let n = attrs.len();
                let mut i: usize = 0;
                proof {
                    assert(pre + attrs_bytes(avs.take(0)) =~= pre);
                }
                while i < n
                    invariant
                        0 <= i <= n,
                        n == avs.len(),
                        avs == attrs@,
                        self.writer.wm() == step_write(m0, pre + attrs_bytes(avs.take(i as int))),
                        self.writer.wm().pad == m0.pad,
                        self.writer.wm().tabw == m0.tabw,
                        self.writer.wm().counts == m0.counts,
                        self.writer.wm().eol == m0.eol,
                    decreases n - i,
                {
                    let ghost acc = pre + attrs_bytes(avs.take(i as int));
                    let a = attrs.get_at(i);
                    let rr = self.writer.write(" ");
                    if rr.is_err() {
                        return rr;
                    }
                    let rr = self.writer.write(a.name.get());
                    if rr.is_err() {
                        return rr;
                    }
                    let rr = self.writer.write("=\"");
                    if rr.is_err() {
                        return rr;
                    }
                    proof {
                        lemma_step_write_merge(m0, acc, " ".spec_bytes());
                        lemma_step_write_merge(m0, acc + " ".spec_bytes(), encode_utf8(avs[i as int].name));
                        lemma_step_write_merge(
                            m0,
                            acc + " ".spec_bytes() + encode_utf8(avs[i as int].name),
                            "=\"".spec_bytes(),
                        );
                    }
                    let ghost acc2 = acc + seq![32u8] + encode_utf8(avs[i as int].name) + seq![
                        61u8,
                        34u8,
                    ];
                    proof {
                        assert(acc + " ".spec_bytes() + encode_utf8(avs[i as int].name)
                            + "=\"".spec_bytes() =~= acc2);
                    }
                    let pats = attr_pattern_vec();
                    let rr = escape_writer(a.value.get(), &mut self.writer, pats.as_slice());
                    if rr.is_err() {
                        return rr;
                    }
                    let ghost vb = encode_utf8(avs[i as int].value);
                    let ghost escv = escape_bytes(vb, xml_attr_needles());
                    proof {
                        if vb.len() == 0 {
                            assert(escv =~= Seq::<u8>::empty());
                            assert(acc2 + escv =~= acc2);
                        } else {
                            lemma_step_write_merge(m0, acc2, escv);
                        }
                    }
                    let rr = self.writer.write("\"");
                    if rr.is_err() {
                        return rr;
                    }
                    proof {
                        lemma_step_write_merge(m0, acc2 + escv, "\"".spec_bytes());
                        assert(avs.take(i + 1) =~= avs.take(i as int).push(avs[i as int]));
                        assert(attrs_bytes(avs.take(i + 1)) =~= attrs_bytes(avs.take(i as int))
                            + attr_bytes(avs[i as int])) by {
                            assert(avs.take(i + 1).drop_last() =~= avs.take(i as int));
                            assert(avs.take(i + 1).last() == avs[i as int]);
                        }
                        assert(acc2 + escv + seq![34u8] =~= pre + attrs_bytes(avs.take(i + 1)));
                    }
                    i += 1;
                }
                proof {
                    assert(avs.take(n as int) =~= avs);
                }
            },
            None => {
                proof {
                    assert(attrs_bytes(avs) =~= Seq::<u8>::empty());
                    assert(pre + attrs_bytes(avs) =~= pre);
                }
            },
        }
        proof {
            assert(self.writer.wm() == step_write(m0, open_tag_bytes(name@, nsv, avs)));
        }
        match element_type {
            ElementType::Empty => {
                let rr = self.writer.write_line("/>");
                if rr.is_err() {
                    return rr;
                }
            },
            ElementType::NonEmpty => {
                let rr = self.writer.write_line(">");
                if rr.is_err() {
                    return rr;
                }
                self.writer.increment_level();
            },
        }
        Ok(())
    }

    /// Writes a closing tag one level down: `</name>` or `</ns:name>`.
    fn close_element(&mut self, name: &str, namespace: Option<&str>) -> (r: Result<
        (),
        XmlSerializeError,
    >)
        ensures
            final(self).writer.wm().pad == old(self).writer.wm().pad,
            final(self).writer.wm().tabw == old(self).writer.wm().tabw,
            final(self).writer.wm().counts == old(self).writer.wm().counts,
            final(self).writer.wm().eol == old(self).writer.wm().eol,
            final(self).writer.wm().infallible == old(self).writer.wm().infallible,
            old(self).writer.wm().infallible ==> r is Ok,
            r matches Err(e) ==> e == XmlSerializeError::IOError,
            r is Ok ==> final(self).writer.wm() == element_close(
                old(self).writer.wm(),
                name@,
                namespace.deep_view(),
            ),
    {
        let ghost m0 = old(self).writer.wm();
        let ghost nsv = namespace.deep_view();
        proof {
            lemma_tag_literals();
        }
        self.writer.decrement_level();
        let ghost m1 = step_dec(m0);
        let rr = self.writer.write("</");
        if rr.is_err() {
            return rr;
        }
        match namespace {
            Some(ns) => {
                let rr = self.writer.write(ns);
                if rr.is_err() {
                    return rr;
                }
                let rr = self.writer.write(":");
                if rr.is_err() {
                    return rr;
                }
                proof {
                    lemma_step_write_merge(m1, "</".spec_bytes(), ns.spec_bytes());
                    lemma_step_write_merge(
                        m1,
                        "</".spec_bytes() + ns.spec_bytes(),
                        ":".spec_bytes(),
                    );
                }
            },
            None => {
            },
        }
        let ghost lead = seq![60u8, 47u8] + opt_ns_bytes(nsv);
        proof {
            assert(self.writer.wm() == step_write(m1, lead)) by {
                if namespace is Some {
                    assert("</".spec_bytes() + namespace.unwrap().spec_bytes() + ":".spec_bytes()
                        =~= lead);
                } else {
                    assert("</".spec_bytes() =~= lead);
                }
            }
        }
        let rr = self.writer.write(name);
        if rr.is_err() {
            return rr;
        }
        let rr = self.writer.write(">");
        if rr.is_err() {
            return rr;
        }
        proof {
            lemma_step_write_merge(m1, lead, name.spec_bytes());
            lemma_step_write_merge(m1, lead + encode_utf8(name@), ">".spec_bytes());
            assert(lead + encode_utf8(name@) + ">".spec_bytes() =~= close_tag_bytes(name@, nsv));
        }
        let rr = self.writer.write_line("");
        if rr.is_err() {
            return rr;
        }
        proof {
            assert(step_write_line(step_write(m1, close_tag_bytes(name@, nsv)), "".spec_bytes())
                =~= element_close(m0, name@, nsv));
        }
        Ok(())
    }

    /// Writes a string as it stands, unescaped.
    pub fn serialize_str(&mut self, value: &str) -> (r: Result<(), XmlSerializeError>)
        ensures
            final(self).writer.wm().pad == old(self).writer.wm().pad,
            final(self).writer.wm().tabw == old(self).writer.wm().tabw,
            final(self).writer.wm().counts == old(self).writer.wm().counts,
            final(self).writer.wm().eol == old(self).writer.wm().eol,
            final(self).writer.wm().infallible == old(self).writer.wm().infallible,
            old(self).writer.wm().infallible ==> r is Ok,
            r matches Err(e) ==> e == XmlSerializeError::IOError,
            r is Ok ==> final(self).writer.wm() == step_write(
                old(self).writer.wm(),
                value.spec_bytes(),
            ),
    {
        self.writer.write(value)
    }

    /// Escapes a string with the element-text needle set and writes it.
    /// Empty text decides on its own: it succeeds without a sink call.
    pub fn serialize_escaped_str(&mut self, value: &str) -> (r: Result<(), XmlSerializeError>)
        ensures
            final(self).writer.wm().pad == old(self).writer.wm().pad,
            final(self).writer.wm().tabw == old(self).writer.wm().tabw,
            final(self).writer.wm().counts == old(self).writer.wm().counts,
            final(self).writer.wm().eol == old(self).writer.wm().eol,
            final(self).writer.wm().infallible == old(self).writer.wm().infallible,
            value.spec_bytes().len() == 0 ==> r is Ok,
            old(self).writer.wm().infallible ==> r is Ok,
            r matches Err(e) ==> e == XmlSerializeError::IOError,
            r is Ok ==> final(self).writer.wm() == escaped_text_step(
                old(self).writer.wm(),
                value.spec_bytes(),
            ),
    {
        proof {
            lemma_needle_facts();
        }
        let pats = text_pattern_vec();
        escape_writer(value, &mut self.writer, pats.as_slice())
    }

    /// Asks a value to write itself at the stream's root.
    pub fn serialize<V: Serialize>(&mut self, value: &V, namespace: Option<&str>) -> (r: Result<
        (),
        XmlSerializeError,
    >)
        ensures
            final(self).writer.wm().pad == old(self).writer.wm().pad,
            final(self).writer.wm().tabw == old(self).writer.wm().tabw,
            final(self).writer.wm().counts == old(self).writer.wm().counts,
            final(self).writer.wm().eol == old(self).writer.wm().eol,
            final(self).writer.wm().infallible == old(self).writer.wm().infallible,
            (old(self).writer.wm().infallible && value.accepts(namespace.deep_view())) ==> r
                is Ok,
            r matches Err(e) ==> (e == XmlSerializeError::IOError || (e
                == XmlSerializeError::InvalidNamespace && !value.accepts(namespace.deep_view()))),
            r is Ok ==> final(self).writer.wm() == value.rendered(
                namespace.deep_view(),
                old(self).writer.wm(),
            ),
    {
        value.serialize(self, namespace)
    }

    /// Opens a non-empty element and hands back the handle that will
    /// close it.
    pub fn serialize_element(
        &mut self,
        name: &str,
        namespace: Option<&str>,
        attributes: Option<&AttributeMap>,
    ) -> (r: Result<XmlElementSerializer, XmlSerializeError>)
        ensures
            final(self).writer.wm().pad == old(self).writer.wm().pad,
            final(self).writer.wm().tabw == old(self).writer.wm().tabw,
            final(self).writer.wm().counts == old(self).writer.wm().counts,
            final(self).writer.wm().eol == old(self).writer.wm().eol,
            final(self).writer.wm().infallible == old(self).writer.wm().infallible,
            old(self).writer.wm().infallible ==> r is Ok,
            r matches Err(e) ==> e == XmlSerializeError::IOError,
            ({
                match r {
                    Ok(e) => {
                        &&& final(self).writer.wm() == element_open(
                            old(self).writer.wm(),
                            name@,
                            namespace.deep_view(),
                            opt_attr_views(attributes),
                        )
                        &&& e.name_view() == name@
                        &&& e.ns_view() == namespace.deep_view()
                    },
                    Err(_) => true,
                }
            }),
    {
        let rr = self.create_element(name, namespace, attributes, ElementType::NonEmpty);
        match rr {
            Ok(_) => {
                let e = XmlElementSerializer {
                    name: name.to_owned(),
                    namespace: match namespace {
                        Some(n) => Some(n.to_owned()),
                        None => None,
                    },
                };
                Ok(e)
            },
            Err(e) => Err(e),
        }
    }

    /// Writes a whole empty element: `<name attr="..."/>`.
    pub fn serialize_empty_element(
        &mut self,
        name: &str,
        namespace: Option<&str>,
        attributes: Option<&AttributeMap>,
    ) -> (r: Result<(), XmlSerializeError>)
        ensures
            final(self).writer.wm().pad == old(self).writer.wm().pad,
            final(self).writer.wm().tabw == old(self).writer.wm().tabw,
            final(self).writer.wm().counts == old(self).writer.wm().counts,
            final(self).writer.wm().eol == old(self).writer.wm().eol,
            final(self).writer.wm().infallible == old(self).writer.wm().infallible,
            old(self).writer.wm().infallible ==> r is Ok,
            r matches Err(e) ==> e == XmlSerializeError::IOError,
            r is Ok ==> final(self).writer.wm() == element_empty(
                old(self).writer.wm(),
                name@,
                namespace.deep_view(),
                opt_attr_views(attributes),
            ),
    {
        self.create_element(name, namespace, attributes, ElementType::Empty)
    }
}

impl XmlElementSerializer {
    /// Asks a value to write itself as a child of this open element.
    pub fn serialize<W: Write, V: Serialize>(
        &self,
        serializer: &mut XmlSerializer<W>,
        value: &V,
        namespace: Option<&str>,
    ) -> (r: Result<(), XmlSerializeError>)
        ensures
            final(serializer).writer.wm().pad == old(serializer).writer.wm().pad,
            final(serializer).writer.wm().tabw == old(serializer).writer.wm().tabw,
            final(serializer).writer.wm().counts == old(serializer).writer.wm().counts,
            final(serializer).writer.wm().eol == old(serializer).writer.wm().eol,
            final(serializer).writer.wm().infallible == old(serializer).writer.wm().infallible,
            (old(serializer).writer.wm().infallible && value.accepts(namespace.deep_view()))
                ==> r is Ok,
            r matches Err(e) ==> (e == XmlSerializeError::IOError || (e
                == XmlSerializeError::InvalidNamespace && !value.accepts(namespace.deep_view()))),
            r is Ok ==> final(serializer).writer.wm() == value.rendered(
                namespace.deep_view(),
                old(serializer).writer.wm(),
            ),
    {
        value.serialize(serializer, namespace)
    }

    /// Writes the element's text as it stands and closes the element.
    pub fn serialize_str<W: Write>(self, serializer: &mut XmlSerializer<W>, value: &str) -> (r:
        Result<(), XmlSerializeError>)
        ensures
            final(serializer).writer.wm().pad == old(serializer).writer.wm().pad,
            final(serializer).writer.wm().tabw == old(serializer).writer.wm().tabw,
            final(serializer).writer.wm().counts == old(serializer).writer.wm().counts,
            final(serializer).writer.wm().eol == old(serializer).writer.wm().eol,
            final(serializer).writer.wm().infallible == old(serializer).writer.wm().infallible,
            old(serializer).writer.wm().infallible ==> r is Ok,
            r matches Err(e) ==> e == XmlSerializeError::IOError,
            r is Ok ==> final(serializer).writer.wm() == element_close(
                step_write_line(old(serializer).writer.wm(), value.spec_bytes()),
                self.name_view(),
                self.ns_view(),
            ),
    {
        let rr = serializer.writer.write_line(value);
        if rr.is_err() {
            return rr;
        }
        self.end(serializer)
    }

    /// Escapes the element's text, ends the line, and closes the
    /// element.
    pub fn serialize_escaped_str<W: Write>(
        self,
        serializer: &mut XmlSerializer<W>,
        value: &str,
    ) -> (r: Result<(), XmlSerializeError>)
        ensures
            final(serializer).writer.wm().pad == old(serializer).writer.wm().pad,
            final(serializer).writer.wm().tabw == old(serializer).writer.wm().tabw,
            final(serializer).writer.wm().counts == old(serializer).writer.wm().counts,
            final(serializer).writer.wm().eol == old(serializer).writer.wm().eol,
            final(serializer).writer.wm().infallible == old(serializer).writer.wm().infallible,
            old(serializer).writer.wm().infallible ==> r is Ok,
            r matches Err(e) ==> e == XmlSerializeError::IOError,
            r is Ok ==> final(serializer).writer.wm() == element_close(
                step_write_line(
                    escaped_text_step(old(serializer).writer.wm(), value.spec_bytes()),
                    Seq::empty(),
                ),
                self.name_view(),
                self.ns_view(),
            ),
    {
        proof {
            lemma_needle_facts();
            lemma_tag_literals();
        }
        let pats = text_pattern_vec();
        let rr = escape_writer(value, &mut serializer.writer, pats.as_slice());
        if rr.is_err() {
            return rr;
        }
        let rr = serializer.writer.write_line("");
        if rr.is_err() {
            return rr;
        }
        self.end(serializer)
    }

    /// Closes the element: one level down, the closing tag, end of
    /// line.
    pub fn end<W: Write>(self, serializer: &mut XmlSerializer<W>) -> (r: Result<
        (),
        XmlSerializeError,
    >)
        ensures
            final(serializer).writer.wm().pad == old(serializer).writer.wm().pad,
            final(serializer).writer.wm().tabw == old(serializer).writer.wm().tabw,
            final(serializer).writer.wm().counts == old(serializer).writer.wm().counts,
            final(serializer).writer.wm().eol == old(serializer).writer.wm().eol,
            final(serializer).writer.wm().infallible == old(serializer).writer.wm().infallible,
            old(serializer).writer.wm().infallible ==> r is Ok,
            r matches Err(e) ==> e == XmlSerializeError::IOError,
            r is Ok ==> final(serializer).writer.wm() == element_close(
                old(serializer).writer.wm(),
                self.name_view(),
                self.ns_view(),
            ),
    {
        let ns: Option<&str> = match &self.namespace {
            Some(n) => Some(n.as_str()),
            None => None,
        };
        serializer.close_element(self.name.as_str(), ns)
    }
}

} // verus!
