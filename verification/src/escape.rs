use vstd::prelude::*;
use vstd::string::StringSliceAdditionalSpecFns;
use vstd::string::StringExecFns;
use vstd::utf8::encode_utf8;
use vstd::utf8::is_char_boundary;
use vstd::utf8::valid_utf8;

use crate::error::XmlSerializeError;
use crate::serializer::lemma_step_write_merge;
use crate::serializer::step_write;
use crate::serializer::Write;
use crate::strbytes::append_str;
use crate::strbytes::substr;
use crate::strbytes::lemma_boundary_after_ascii;
use crate::strbytes::lemma_encode_utf8_app;
use crate::strbytes::push_substr;
use crate::utils::byte_search::avx2_search::Avx2ByteSearchIter;
use crate::utils::byte_search::is_needle;
use crate::utils::byte_search::lemma_match_seq_props;
use crate::utils::byte_search::match_seq;
use crate::utils::byte_search::swar_search::SwarByteSearchIter;
use crate::utils::byte_search::BasicByteSearch;
use crate::utils::byte_search::BytePosition;
use crate::utils::byte_search::ByteSearch;
use vstd::slice::spec_slice_len;

verus! {

broadcast use {vstd::string::group_string_axioms, vstd::utf8::encode_utf8_valid_utf8};

/// The needle set for element text: `< > & ' "`.
pub const XML_ESCAPE_PATTERNS: [u8; 5] = [60, 62, 38, 39, 34];

/// The needle set for attribute values: `< > & "`.
pub const XML_ATTR_ESCAPE_PATTERNS: [u8; 4] = [60, 62, 38, 34];

/// The element-text needle set, as a sequence.
pub open spec fn xml_text_needles() -> Seq<u8> {
    seq![60u8, 62u8, 38u8, 39u8, 34u8]
}

/// The attribute-value needle set, as a sequence.
pub open spec fn xml_attr_needles() -> Seq<u8> {
    seq![60u8, 62u8, 38u8, 34u8]
}

/// The entity that replaces an escaped byte, as bytes; empty for a byte
/// outside the five-entry table.
pub open spec fn entity_bytes(b: u8) -> Seq<u8> {
    if b == 34 {
        seq![38u8, 113u8, 117u8, 111u8, 116u8, 59u8]  // &quot;
    } else if b == 38 {
        seq![38u8, 97u8, 109u8, 112u8, 59u8]  // &amp;
    } else if b == 39 {
        seq![38u8, 97u8, 112u8, 111u8, 115u8, 59u8]  // &apos;
    } else if b == 60 {
        seq![38u8, 108u8, 116u8, 59u8]  // &lt;
    } else if b == 62 {
        seq![38u8, 103u8, 116u8, 59u8]  // &gt;
    } else {
        Seq::empty()
    }
}

/// What one byte of input contributes to the escaped output: needles are
/// replaced by their table entity, everything else passes through.
pub open spec fn escape_one(b: u8, needles: Seq<u8>) -> Seq<u8> {
    if is_needle(needles, b) {
        entity_bytes(b)
    } else {
        seq![b]
    }
}

/// The straightforward byte-for-byte escaping of a whole buffer.
pub open spec fn escape_all(s: Seq<u8>, needles: Seq<u8>) -> Seq<u8>
    decreases s.len(),
{
    if s.len() == 0 {
        Seq::empty()
    } else {
        escape_all(s.drop_last(), needles) + escape_one(s.last(), needles)
    }
}

/// True on the inputs where the escape engine's tail flush drops the
/// final byte: the next-to-last byte is a needle and the last is not.
/// The condition is kept as the engine behaves, deliberately.
pub open spec fn tail_dropped(s: Seq<u8>, needles: Seq<u8>) -> bool {
    &&& s.len() >= 2
    &&& is_needle(needles, s[s.len() - 2])
    &&& !is_needle(needles, s[s.len() - 1])
}

/// The exact bytes the escape engine produces for `s`: byte-for-byte
/// escaping, except that on `tail_dropped` inputs the final byte is
/// lost to the tail-flush boundary condition.
pub open spec fn escape_bytes(s: Seq<u8>, needles: Seq<u8>) -> Seq<u8> {
    if tail_dropped(s, needles) {
        escape_all(s.take(s.len() - 1), needles)
    } else {
        escape_all(s, needles)
    }
}

/// Escaping distributes over concatenation.
pub proof fn lemma_escape_all_app(a: Seq<u8>, b: Seq<u8>, needles: Seq<u8>)
    ensures
        escape_all(a + b, needles) == escape_all(a, needles) + escape_all(b, needles),
    decreases b.len(),
{
    if b.len() == 0 {
        assert(a + b =~= a);
        assert(escape_all(a, needles) + escape_all(b, needles) =~= escape_all(a, needles));
    } else {
        assert((a + b).drop_last() =~= a + b.drop_last());
        assert((a + b).last() == b.last());
        lemma_escape_all_app(a, b.drop_last(), needles);
        assert(escape_all(a + b, needles) =~= escape_all(a, needles) + escape_all(b, needles));
    }
}

/// A buffer without needles escapes to itself.
pub proof fn lemma_escape_all_clean(s: Seq<u8>, needles: Seq<u8>)
    requires
        forall|i: int| 0 <= i < s.len() ==> !is_needle(needles, #[trigger] s[i]),
    ensures
        escape_all(s, needles) == s,
    decreases s.len(),
{
    if s.len() > 0 {
        lemma_escape_all_clean(s.drop_last(), needles);
        assert(escape_all(s, needles) =~= s);
    }
}

/// Escaping a longer prefix appends the next byte's contribution.
pub proof fn lemma_escape_all_take_step(s: Seq<u8>, needles: Seq<u8>, i: int)
    requires
        0 <= i < s.len(),
    ensures
        escape_all(s.take(i + 1), needles) == escape_all(s.take(i), needles) + escape_one(
            s[i],
            needles,
        ),
{
    let t = s.take(i + 1);
    assert(t.drop_last() =~= s.take(i));
    assert(t.last() == s[i]);
}

/// A clean stretch passes through the escape engine verbatim.
pub proof fn lemma_escape_all_span(s: Seq<u8>, needles: Seq<u8>, a: int, b: int)
    requires
        0 <= a <= b <= s.len(),
        forall|j: int| a <= j < b ==> !is_needle(needles, #[trigger] s[j]),
    ensures
        escape_all(s.take(b), needles) == escape_all(s.take(a), needles) + s.subrange(a, b),
{
    assert(s.take(b) =~= s.take(a) + s.subrange(a, b));
    lemma_escape_all_app(s.take(a), s.subrange(a, b), needles);
    lemma_escape_all_clean(s.subrange(a, b), needles);
}

/// How long escaping makes a buffer: the original length plus, for each
/// match, the length of its entity less the one byte it replaces.
pub open spec fn entity_extra_sum(ms: Seq<BytePosition>) -> int
    decreases ms.len(),
{
    if ms.len() == 0 {
        0
    } else {
        entity_extra_sum(ms.drop_last()) + (entity_bytes(ms.last().value).len() - 1)
    }
}

proof fn lemma_escape_all_len(s: Seq<u8>, needles: Seq<u8>)
    ensures
        escape_all(s, needles).len() == s.len() + entity_extra_sum(match_seq(s, needles)),
    decreases s.len(),
{
    if s.len() > 0 {
        lemma_escape_all_len(s.drop_last(), needles);
        if is_needle(needles, s.last()) {
            assert(match_seq(s, needles).drop_last() =~= match_seq(s.drop_last(), needles));
        } else {
            assert(match_seq(s, needles) =~= match_seq(s.drop_last(), needles));
        }
    }
}

/// Law: for every input on which the tail flush loses nothing, the
/// escaped length is the original length plus, over all matches, the
/// entity length less one.
pub proof fn lemma_escaped_length(s: Seq<u8>, needles: Seq<u8>)
    requires
        !tail_dropped(s, needles),
    ensures
        escape_bytes(s, needles).len() == s.len() + entity_extra_sum(match_seq(s, needles)),
{
    lemma_escape_all_len(s, needles);
}

/// Law: an input containing no needle byte escapes to exactly itself.
pub proof fn lemma_escape_clean_identity(s: Seq<u8>, needles: Seq<u8>)
    requires
        forall|i: int| 0 <= i < s.len() ==> !is_needle(needles, #[trigger] s[i]),
    ensures
        escape_bytes(s, needles) == s,
{
    lemma_escape_all_clean(s, needles);
}

proof fn lemma_needle_ascii(pats: Seq<u8>, b: u8)
    requires
        forall|i: int| 0 <= i < pats.len() ==> pats[i] < 0x80,
        is_needle(pats, b),
    ensures
        b < 0x80,
{
    let i = choose|i: int| 0 <= i < pats.len() && pats[i] == b;
}

/// Looks up the entity text for one byte; the empty string for a byte
/// the table does not escape.
pub fn get_escaped(value: u8) -> (r: &'static str)
    ensures
        r.spec_bytes() == entity_bytes(value),
        r@.len() == entity_bytes(value).len(),
{
    let r: &'static str = if value == 34 {
        "&quot;"
    } else if value == 38 {
        "&amp;"
    } else if value == 39 {
        "&apos;"
    } else if value == 60 {
        "&lt;"
    } else if value == 62 {
        "&gt;"
    } else {
        ""
    };
    proof {
        lemma_entity_literals();
        reveal_strlit("");
        assert(""@ =~= Seq::<char>::empty());
        assert("".spec_bytes() =~= Seq::<u8>::empty());
    }
    r
}

proof fn lemma_ascii_lit(s: &str)
    requires
        vstd::string::is_ascii(s),
    ensures
        s.spec_bytes() =~= Seq::new(s@.len(), |i: int| s@[i] as u8),
{
    broadcast use vstd::string::is_ascii_spec_bytes;

}

proof fn lemma_entity_literals()
    ensures
        "&quot;".spec_bytes() == entity_bytes(34),
        "&amp;".spec_bytes() == entity_bytes(38),
        "&apos;".spec_bytes() == entity_bytes(39),
        "&lt;".spec_bytes() == entity_bytes(60),
        "&gt;".spec_bytes() == entity_bytes(62),
        "&quot;"@.len() == 6,
        "&amp;"@.len() == 5,
        "&apos;"@.len() == 6,
        "&lt;"@.len() == 4,
        "&gt;"@.len() == 4,
{
    reveal_strlit("&quot;");
    reveal_strlit("&amp;");
    reveal_strlit("&apos;");
    reveal_strlit("&lt;");
    reveal_strlit("&gt;");
    assert(vstd::string::is_ascii("&quot;"));
    assert(vstd::string::is_ascii("&amp;"));
    assert(vstd::string::is_ascii("&apos;"));
    assert(vstd::string::is_ascii("&lt;"));
    assert(vstd::string::is_ascii("&gt;"));
    lemma_ascii_lit("&quot;");
    lemma_ascii_lit("&amp;");
    lemma_ascii_lit("&apos;");
    lemma_ascii_lit("&lt;");
    lemma_ascii_lit("&gt;");
    assert("&quot;".spec_bytes() =~= entity_bytes(34));
    assert("&amp;".spec_bytes() =~= entity_bytes(38));
    assert("&apos;".spec_bytes() =~= entity_bytes(39));
    assert("&lt;".spec_bytes() =~= entity_bytes(60));
    assert("&gt;".spec_bytes() =~= entity_bytes(62));
}

/// The copy-on-write result of escaping: the borrowed input when there
/// was nothing to do, a fresh string otherwise.
pub enum Escaped<'a> {
    Borrowed(&'a str),
    Owned(String),
}

/// The escape engine proper: walks a search tier's match stream over the
/// input and stitches verbatim spans and entities together.
#[verifier::loop_isolation(false)]
fn internal_escape<'a, S: ByteSearch>(byte_search_iter: &mut S, input: &'a str) -> (r: Escaped<
    'a,
>)
    requires
        old(byte_search_iter).wf(),
        old(byte_search_iter).hay() == input.spec_bytes(),
        old(byte_search_iter).emitted() == 0,
        forall|i: int|
            0 <= i < old(byte_search_iter).pats().len() ==> old(byte_search_iter).pats()[i]
                < 0x80,
    ensures
        ({
            let all = match_seq(input.spec_bytes(), old(byte_search_iter).pats());
            match r {
                Escaped::Borrowed(t) => t@ == input@ && all.len() == 0,
                Escaped::Owned(t) => encode_utf8(t@) == escape_bytes(
                    input.spec_bytes(),
                    old(byte_search_iter).pats(),
                ) && all.len() > 0,
            }
        }),
{
    let ghost bytes = input.spec_bytes();
    let ghost pats = old(byte_search_iter).pats();
    let ghost all = match_seq(bytes, pats);
    let input_bytes = input.as_bytes();
    proof {
        broadcast use vstd::slice::axiom_spec_len;

        assert(valid_utf8(bytes));
        assert(input_bytes@.len() == spec_slice_len(input_bytes));
        assert(bytes.len() <= usize::MAX);
        lemma_match_seq_props(bytes, pats);
    }
    if input.is_empty() {
        proof {
            assert(bytes =~= Seq::<u8>::empty());
        }
        return Escaped::Borrowed(input);
    }
    let first = byte_search_iter.next();
    if first.is_none() {
        return Escaped::Borrowed(input);
    }
    let mut p = first.unwrap();
    let ghost mut k: int = 0;
    let mut escaped_input = String::new();
    let mut head: usize = 0;
    let len = input.len();
    proof {
        assert(encode_utf8(escaped_input@) =~= Seq::<u8>::empty());
        assert(bytes.take(0) =~= Seq::<u8>::empty());
        assert(escape_all(bytes.take(0), pats) =~= Seq::<u8>::empty());
        assert forall|j: int| 0 <= j < p.index implies !is_needle(pats, #[trigger] bytes[j]) by {
            if is_needle(pats, bytes[j]) {
                let m = choose|m: int| 0 <= m < all.len() && (#[trigger] all[m]).index == j;
                if m > 0 {
                    assert(all[0].index < all[m].index);
                }
            }
        }
    }
    loop
        invariant
            byte_search_iter.wf(),
            byte_search_iter.hay() == bytes,
            byte_search_iter.pats() == pats,
            0 <= k < all.len(),
            p == all[k],
            byte_search_iter.emitted() == k + 1,
            head <= p.index,
            p.index < len,
            forall|j: int| head <= j < p.index ==> !is_needle(pats, #[trigger] bytes[j]),
            encode_utf8(escaped_input@) == escape_all(bytes.take(head as int), pats),
            is_char_boundary(bytes, head as int),
        decreases all.len() - k,
    {
        if head != p.index {
            proof {
                assert(is_needle(pats, bytes[p.index as int]));
                lemma_needle_ascii(pats, bytes[p.index as int]);
                lemma_boundary_after_ascii(bytes, p.index as int);
            }
            push_substr(&mut escaped_input, input, head, p.index);
            proof {
                lemma_escape_all_span(bytes, pats, head as int, p.index as int);
            }
        }
        let ent = get_escaped(p.value);
        append_str(&mut escaped_input, ent);
        proof {
            lemma_escape_all_take_step(bytes, pats, p.index as int);
            assert(escape_one(bytes[p.index as int], pats) == entity_bytes(p.value));
            if head != p.index {
            } else {
                assert(bytes.take(head as int) =~= bytes.take(p.index as int));
            }
            assert(encode_utf8(escaped_input@) == escape_all(bytes.take(p.index + 1), pats));
            lemma_needle_ascii(pats, bytes[p.index as int]);
            lemma_boundary_after_ascii(bytes, p.index as int);
        }
        head = p.index + 1;
        let nxt = byte_search_iter.next();
        match nxt {
            Some(q) => {
                proof {
                    assert(q == all[k + 1]);
                    assert(all[k].index < all[k + 1].index);
                    assert forall|j: int| head <= j < q.index implies !is_needle(
                        pats,
                        #[trigger] bytes[j],
                    ) by {
                        if is_needle(pats, bytes[j]) {
                            let m = choose|m: int|
                                0 <= m < all.len() && (#[trigger] all[m]).index == j;
                            if m <= k {
                                assert(all[m].index <= all[k].index);
                            } else {
                                assert(all[k + 1].index <= all[m].index);
                            }
                        }
                    }
                    k = k + 1;
                }
                p = q;
            },
            None => {
                break ;
            },
        }
    }
    proof {
        assert(k == all.len() - 1);
        assert(head == all[all.len() - 1].index + 1);
        assert forall|j: int| head <= j < len implies !is_needle(pats, #[trigger] bytes[j]) by {
            if is_needle(pats, bytes[j]) {
                let m = choose|m: int| 0 <= m < all.len() && (#[trigger] all[m]).index == j;
                assert(all[m].index <= all[all.len() - 1].index);
            }
        }
    }
    if head < len - 1 {
        proof {
            vstd::utf8::is_char_boundary_start_end_of_seq(bytes);
        }
        push_substr(&mut escaped_input, input, head, len);
        proof {
            lemma_escape_all_span(bytes, pats, head as int, len as int);
            assert(bytes.take(len as int) =~= bytes);
            assert(!tail_dropped(bytes, pats)) by {
                assert(!is_needle(pats, bytes[len - 2]));
            }
        }
    } else {
        proof {
            if head == len - 1 {
                assert(tail_dropped(bytes, pats)) by {
                    assert(bytes[len - 2] == all[all.len() - 1].value);
                    assert(is_needle(pats, bytes[len - 2]));
                    assert(!is_needle(pats, bytes[len - 1]));
                }
                assert(escape_bytes(bytes, pats) == escape_all(bytes.take(head as int), pats));
            } else {
                assert(head == len);
                assert(bytes.take(head as int) =~= bytes);
                assert(!tail_dropped(bytes, pats)) by {
                    assert(bytes[len - 1] == all[all.len() - 1].value);
                }
            }
        }
    }
    Escaped::Owned(escaped_input)
}

/// Escapes every needle byte of `input`, returning the input itself when
/// nothing needed escaping and a freshly built string otherwise. The
/// search tier is picked per call from the input length; the choice can
/// only change speed, never the result. The needle set must not contain
/// the zero byte.
pub fn escape<'a>(input: &'a str, search_bytes: &'a [u8]) -> (r: Escaped<'a>)
    requires
        !search_bytes@.contains(0u8),
        forall|i: int| 0 <= i < search_bytes@.len() ==> search_bytes@[i] < 0x80,
    ensures
        ({
            let all = match_seq(input.spec_bytes(), search_bytes@);
            match r {
                Escaped::Borrowed(t) => t@ == input@ && all.len() == 0,
                Escaped::Owned(t) => encode_utf8(t@) == escape_bytes(
                    input.spec_bytes(),
                    search_bytes@,
                ) && all.len() > 0,
            }
        }),
{
    if input.len() <= 7 {
        let mut iter = BasicByteSearch::new(input.as_bytes(), search_bytes);
        internal_escape(&mut iter, input)
    } else if input.len() <= 63 {
        let mut iter = SwarByteSearchIter::new(input.as_bytes(), search_bytes);
        internal_escape(&mut iter, input)
    } else {
        let mut iter = Avx2ByteSearchIter::new(input.as_bytes(), search_bytes);
        internal_escape(&mut iter, input)
    }
}


/// The writer-driven escape engine: walks a search tier's match stream
/// and writes verbatim spans and entities straight into the sink, never
/// building an intermediate string.
#[verifier::loop_isolation(false)]
fn internal_escape_writer<W: Write, S: ByteSearch>(
    writer: &mut W,
    byte_search_iter: &mut S,
    input: &str,
) -> (r: Result<(), XmlSerializeError>)
    requires
        old(byte_search_iter).wf(),
        old(byte_search_iter).hay() == input.spec_bytes(),
        old(byte_search_iter).emitted() == 0,
        forall|i: int|
            0 <= i < old(byte_search_iter).pats().len() ==> old(byte_search_iter).pats()[i]
                < 0x80,
    ensures
        final(writer).wm().pad == old(writer).wm().pad,
        final(writer).wm().tabw == old(writer).wm().tabw,
        final(writer).wm().counts == old(writer).wm().counts,
        final(writer).wm().eol == old(writer).wm().eol,
        final(writer).wm().infallible == old(writer).wm().infallible,
        input.spec_bytes().len() == 0 ==> r is Ok,
        old(writer).wm().infallible ==> r is Ok,
        r matches Err(e) ==> e == XmlSerializeError::IOError,
        r is Ok ==> final(writer).wm() == (if input.spec_bytes().len() == 0 {
            old(writer).wm()
        } else {
            step_write(
                old(writer).wm(),
                escape_bytes(input.spec_bytes(), old(byte_search_iter).pats()),
            )
        }),
{
    let ghost bytes = input.spec_bytes();
    let ghost pats = old(byte_search_iter).pats();
    let ghost all = match_seq(bytes, pats);
    let ghost m0 = old(writer).wm();
    let input_bytes = input.as_bytes();
    proof {
        broadcast use vstd::slice::axiom_spec_len;

        assert(valid_utf8(bytes));
        assert(input_bytes@.len() == spec_slice_len(input_bytes));
        assert(bytes.len() <= usize::MAX);
        lemma_match_seq_props(bytes, pats);
    }
    if input.is_empty() {
        proof {
            assert(bytes =~= Seq::<u8>::empty());
        }
        return Ok(());
    }
    let first = byte_search_iter.next();
    if first.is_none() {
        proof {
            assert forall|i: int| 0 <= i < bytes.len() implies !is_needle(
                pats,
                #[trigger] bytes[i],
            ) by {
                if is_needle(pats, bytes[i]) {
                    let k = choose|k: int| 0 <= k < all.len() && (#[trigger] all[k]).index == i;
                }
            }
            lemma_escape_clean_identity(bytes, pats);
        }
        let rr = writer.write(input);
        return rr;
    }
    let mut p = first.unwrap();
    let ghost mut k: int = 0;
    let mut head: usize = 0;
    let len = input.len();
    proof {
        assert(bytes.take(0) =~= Seq::<u8>::empty());
        assert(escape_all(bytes.take(0), pats) =~= Seq::<u8>::empty());
        assert forall|j: int| 0 <= j < p.index implies !is_needle(pats, #[trigger] bytes[j]) by {
            if is_needle(pats, bytes[j]) {
                let m = choose|m: int| 0 <= m < all.len() && (#[trigger] all[m]).index == j;
                if m > 0 {
                    assert(all[0].index < all[m].index);
                }
            }
        }
    }
    loop
        invariant
            byte_search_iter.wf(),
            byte_search_iter.hay() == bytes,
            byte_search_iter.pats() == pats,
            0 <= k < all.len(),
            p == all[k],
            byte_search_iter.emitted() == k + 1,
            head <= p.index,
            p.index < len,
            k == 0 ==> head == 0 && writer.wm() == m0,
            k > 0 ==> writer.wm() == step_write(m0, escape_all(bytes.take(head as int), pats)),
            forall|j: int| head <= j < p.index ==> !is_needle(pats, #[trigger] bytes[j]),
            is_char_boundary(bytes, head as int),
            writer.wm().pad == m0.pad,
            writer.wm().tabw == m0.tabw,
            writer.wm().counts == m0.counts,
            writer.wm().eol == m0.eol,
        decreases all.len() - k,
    {
        let ghost mbefore = writer.wm();
        let ghost done = escape_all(bytes.take(head as int), pats);
        if head != p.index {
            proof {
                assert(is_needle(pats, bytes[p.index as int]));
                lemma_needle_ascii(pats, bytes[p.index as int]);
                lemma_boundary_after_ascii(bytes, p.index as int);
            }
            let piece = substr(input, head, p.index);
            let rr = writer.write(piece);
            if rr.is_err() {
                return rr;
            }
            proof {
                lemma_escape_all_span(bytes, pats, head as int, p.index as int);
                if k > 0 {
                    lemma_step_write_merge(m0, done, piece.spec_bytes());
                }
            }
        }
        let ent = get_escaped(p.value);
        let rr = writer.write(ent);
        if rr.is_err() {
            return rr;
        }
        proof {
            lemma_escape_all_take_step(bytes, pats, p.index as int);
            assert(escape_one(bytes[p.index as int], pats) == entity_bytes(p.value));
            if head == p.index {
                assert(bytes.take(head as int) =~= bytes.take(p.index as int));
            }
            if k > 0 || head != p.index {
                lemma_step_write_merge(
                    m0,
                    escape_all(bytes.take(p.index as int), pats),
                    ent.spec_bytes(),
                );
            }
            assert(writer.wm() == step_write(m0, escape_all(bytes.take(p.index + 1), pats)));
            lemma_needle_ascii(pats, bytes[p.index as int]);
            lemma_boundary_after_ascii(bytes, p.index as int);
        }
        head = p.index + 1;
        let nxt = byte_search_iter.next();
        match nxt {
            Some(q) => {
                proof {
                    assert(q == all[k + 1]);
                    assert(all[k].index < all[k + 1].index);
                    assert forall|j: int| head <= j < q.index implies !is_needle(
                        pats,
                        #[trigger] bytes[j],
                    ) by {
                        if is_needle(pats, bytes[j]) {
                            let m = choose|m: int|
                                0 <= m < all.len() && (#[trigger] all[m]).index == j;
                            if m <= k {
                                assert(all[m].index <= all[k].index);
                            } else {
                                assert(all[k + 1].index <= all[m].index);
                            }
                        }
                    }
                    k = k + 1;
                }
                p = q;
            },
            None => {
                break ;
            },
        }
    }
    proof {
        assert(k == all.len() - 1);
        assert(head == all[all.len() - 1].index + 1);
        assert forall|j: int| head <= j < len implies !is_needle(pats, #[trigger] bytes[j]) by {
            if is_needle(pats, bytes[j]) {
                let m = choose|m: int| 0 <= m < all.len() && (#[trigger] all[m]).index == j;
                assert(all[m].index <= all[all.len() - 1].index);
            }
        }
    }
    if head < len - 1 {
        proof {
            vstd::utf8::is_char_boundary_start_end_of_seq(bytes);
        }
        let piece = substr(input, head, len);
        let rr = writer.write(piece);
        if rr.is_err() {
            return rr;
        }
        proof {
            lemma_escape_all_span(bytes, pats, head as int, len as int);
            lemma_step_write_merge(
                m0,
                escape_all(bytes.take(head as int), pats),
                piece.spec_bytes(),
            );
            assert(bytes.take(len as int) =~= bytes);
            assert(!tail_dropped(bytes, pats)) by {
                assert(!is_needle(pats, bytes[len - 2]));
            }
        }
    } else {
        proof {
            if head == len - 1 {
                assert(tail_dropped(bytes, pats)) by {
                    assert(bytes[len - 2] == all[all.len() - 1].value);
                    assert(is_needle(pats, bytes[len - 2]));
                    assert(!is_needle(pats, bytes[len - 1]));
                }
                assert(escape_bytes(bytes, pats) == escape_all(bytes.take(head as int), pats));
            } else {
                assert(head == len);
                assert(bytes.take(head as int) =~= bytes);
                assert(!tail_dropped(bytes, pats)) by {
                    assert(bytes[len - 1] == all[all.len() - 1].value);
                }
            }
        }
    }
    Ok(())
}

/// Escapes every needle byte of `input` straight into the sink. The
/// search tier is picked per call from the input length; the choice can
/// only change speed, never the result. The needle set must not contain
/// the zero byte.
pub fn escape_writer<W: Write>(input: &str, writer: &mut W, search_bytes: &[u8]) -> (r: Result<
    (),
    XmlSerializeError,
>)
    requires
        !search_bytes@.contains(0u8),
        forall|i: int| 0 <= i < search_bytes@.len() ==> search_bytes@[i] < 0x80,
    ensures
        final(writer).wm().pad == old(writer).wm().pad,
        final(writer).wm().tabw == old(writer).wm().tabw,
        final(writer).wm().counts == old(writer).wm().counts,
        final(writer).wm().eol == old(writer).wm().eol,
        final(writer).wm().infallible == old(writer).wm().infallible,
        input.spec_bytes().len() == 0 ==> r is Ok,
        old(writer).wm().infallible ==> r is Ok,
        r matches Err(e) ==> e == XmlSerializeError::IOError,
        r is Ok ==> final(writer).wm() == (if input.spec_bytes().len() == 0 {
            old(writer).wm()
        } else {
            step_write(old(writer).wm(), escape_bytes(input.spec_bytes(), search_bytes@))
        }),
{
    if input.len() <= 7 {
        let mut iter = BasicByteSearch::new(input.as_bytes(), search_bytes);
        internal_escape_writer(writer, &mut iter, input)
    } else if input.len() <= 63 {
        let mut iter = SwarByteSearchIter::new(input.as_bytes(), search_bytes);
        internal_escape_writer(writer, &mut iter, input)
    } else {
        let mut iter = Avx2ByteSearchIter::new(input.as_bytes(), search_bytes);
        internal_escape_writer(writer, &mut iter, input)
    }
}

} // verus!
