use vstd::prelude::*;
use vstd::string::StringExecFns;
use vstd::string::StringSliceAdditionalSpecFns;
use vstd::utf8::encode_utf8;
use vstd::utf8::is_char_boundary;
use vstd::utf8::is_continuation_byte;
use vstd::utf8::pop_first_scalar;
use vstd::utf8::valid_first_scalar;
use vstd::utf8::valid_utf8;

verus! {

broadcast use vstd::string::group_string_axioms;

/// UTF-8 encoding distributes over concatenation of character sequences.
pub proof fn lemma_encode_utf8_app(a: Seq<char>, b: Seq<char>)
    ensures
        encode_utf8(a + b) == encode_utf8(a) + encode_utf8(b),
    decreases a.len(),
{
    if a.len() == 0 {
        assert(a + b =~= b);
        assert(encode_utf8(a) + encode_utf8(b) =~= encode_utf8(b));
    } else {
        assert((a + b).drop_first() =~= a.drop_first() + b);
        assert((a + b)[0] == a[0]);
        assert((a + b).len() > 0);
        lemma_encode_utf8_app(a.drop_first(), b);
        assert(encode_utf8(a + b) =~= encode_utf8(a) + encode_utf8(b));
    }
}

/// In valid UTF-8, a position holding an ASCII byte is a character
/// boundary, and so is the position right after it.
pub proof fn lemma_boundary_after_ascii(bytes: Seq<u8>, i: int)
    requires
        valid_utf8(bytes),
        0 <= i < bytes.len(),
        bytes[i] < 0x80,
    ensures
        is_char_boundary(bytes, i),
        is_char_boundary(bytes, i + 1),
{
    vstd::utf8::is_char_boundary_iff_not_is_continuation_byte(bytes, i);
    if i + 1 == bytes.len() {
        vstd::utf8::is_char_boundary_start_end_of_seq(bytes);
    } else {
        vstd::utf8::valid_utf8_split(bytes, i);
        let suf = bytes.subrange(i, bytes.len() as int);
        assert(valid_utf8(suf));
        assert(suf.len() > 0);
        assert(suf[0] == bytes[i]);
        assert(valid_first_scalar(suf));
        assert(vstd::utf8::length_of_first_scalar(suf) == 1);
        let rest = pop_first_scalar(suf);
        assert(valid_utf8(rest));
        assert(rest.len() > 0);
        assert(rest[0] == bytes[i + 1]);
        assert(valid_first_scalar(rest));
        assert(!is_continuation_byte(rest[0]));
        vstd::utf8::is_char_boundary_iff_not_is_continuation_byte(bytes, i + 1);
    }
}

/// Appends one string to another, tracked at both the character and the
/// byte level.
pub fn append_str(out: &mut String, piece: &str)
    ensures
        final(out)@ == old(out)@ + piece@,
        encode_utf8(final(out)@) == encode_utf8(old(out)@) + piece.spec_bytes(),
{
    let ghost a = out@;
    out.append(piece);
    proof {
        lemma_encode_utf8_app(a, piece@);
    }
}

/// Boundaries of the suffix of a split line up with boundaries of the
/// whole sequence.
proof fn lemma_boundary_in_suffix(bytes: Seq<u8>, a: int, b: int)
    requires
        valid_utf8(bytes),
        is_char_boundary(bytes, a),
        is_char_boundary(bytes, b),
        0 <= a <= b <= bytes.len(),
    ensures
        is_char_boundary(bytes.subrange(a, bytes.len() as int), b - a),
{
    vstd::utf8::valid_utf8_split(bytes, a);
    let suf = bytes.subrange(a, bytes.len() as int);
    if b == bytes.len() {
        vstd::utf8::is_char_boundary_start_end_of_seq(suf);
        assert(suf.len() == bytes.len() - a);
    } else if b == a {
        assert(is_char_boundary(suf, 0));
    } else {
        vstd::utf8::is_char_boundary_iff_not_is_continuation_byte(bytes, b);
        assert(suf[b - a] == bytes[b]);
        vstd::utf8::is_char_boundary_iff_not_is_continuation_byte(suf, b - a);
    }
}

/// The byte range `[a, b)` of `input`, a range of whole characters, as
/// a borrowed substring.
pub fn substr<'a>(input: &'a str, a: usize, b: usize) -> (r: &'a str)
    requires
        a <= b <= input.spec_bytes().len(),
        is_char_boundary(input.spec_bytes(), a as int),
        is_char_boundary(input.spec_bytes(), b as int),
    ensures
        r.spec_bytes() == input.spec_bytes().subrange(a as int, b as int),
{
    broadcast use vstd::utf8::encode_utf8_valid_utf8;

    let ghost bytes = input.spec_bytes();
    proof {
        assert(valid_utf8(bytes));
        lemma_boundary_in_suffix(bytes, a as int, b as int);
    }
    let (_pre, rest) = input.split_at(a);
    let (mid, _post) = rest.split_at(b - a);
    proof {
        assert(rest.spec_bytes() =~= bytes.subrange(a as int, bytes.len() as int));
        assert(mid.spec_bytes() =~= bytes.subrange(a as int, b as int));
    }
    mid
}

/// Appends the byte range `[a, b)` of `input`, a range of whole
/// characters, to `out`.
pub fn push_substr(out: &mut String, input: &str, a: usize, b: usize)
    requires
        a <= b <= input.spec_bytes().len(),
        is_char_boundary(input.spec_bytes(), a as int),
        is_char_boundary(input.spec_bytes(), b as int),
    ensures
        encode_utf8(final(out)@) == encode_utf8(old(out)@) + input.spec_bytes().subrange(
            a as int,
            b as int,
        ),
{
    let mid = substr(input, a, b);
    append_str(out, mid);
}

/// Compares two strings for equality of their character sequences, by
/// comparing their UTF-8 bytes.
#[verifier::loop_isolation(false)]
pub fn str_eq(a: &str, b: &str) -> (r: bool)
    ensures
        r == (a@ == b@),
{
    broadcast use vstd::utf8::encode_utf8_valid_utf8;

    let ab = a.as_bytes();
    let bb = b.as_bytes();
    if ab.len() != bb.len() {
        proof {
            if a@ == b@ {
                assert(a.spec_bytes() == b.spec_bytes());
            }
        }
        return false;
    }
    let mut i: usize = 0;
    while i < ab.len()
        invariant
            0 <= i <= ab@.len(),
            forall|j: int| 0 <= j < i ==> ab@[j] == bb@[j],
        decreases ab@.len() - i,
    {
        if ab[i] != bb[i] {
            proof {
                if a@ == b@ {
                    assert(a.spec_bytes() == b.spec_bytes());
                    assert(ab@[i as int] == bb@[i as int]);
                }
            }
            return false;
        }
        i += 1;
    }
    proof {
        assert(ab@ =~= bb@);
        vstd::utf8::encode_utf8_decode_utf8(a@);
        vstd::utf8::encode_utf8_decode_utf8(b@);
        assert(a@ == vstd::utf8::decode_utf8(a.spec_bytes()));
    }
    true
}

/// Appends a byte slice to a byte vector.
pub fn append_bytes(buf: &mut Vec<u8>, data: &[u8])
    ensures
        final(buf)@ == old(buf)@ + data@,
{
    let mut i: usize = 0;
    while i < data.len()
        invariant
            0 <= i <= data@.len(),
            buf@ == old(buf)@ + data@.take(i as int),
        decreases data@.len() - i,
    {
        buf.push(data[i]);
        assert(data@.take(i + 1) =~= data@.take(i as int).push(data@[i as int]));
        i += 1;
    }
    assert(data@.take(data@.len() as int) =~= data@);
}

} // verus!
