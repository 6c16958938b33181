use vstd::prelude::*;
use vstd::string::StrSliceExecFns;

verus! {

/// Characters allowed to open an XML name token.
///
/// The ranges mirror the name grammar this library enforces; note that the
/// two ASCII letter ranges leave out `Z` and `z` themselves.
pub open spec fn spec_name_start_char(c: char) -> bool {
    let u = c as u32;
    ||| u == 0x3A  // ':'
    ||| (0x41 <= u && u < 0x5A)
    ||| u == 0x5F  // '_'
    ||| (0x61 <= u && u < 0x7A)
    ||| (0xC0 <= u && u <= 0xD6)
    ||| (0xD8 <= u && u <= 0xF6)
    ||| (0xF8 <= u && u <= 0x2FF)
    ||| (0x370 <= u && u <= 0x37D)
    ||| (0x37F <= u && u <= 0x1FFF)
    ||| (0x200C <= u && u <= 0x200D)
    ||| (0x2070 <= u && u <= 0x218F)
    ||| (0x2C00 <= u && u <= 0x2FEF)
    ||| (0x3001 <= u && u <= 0xD7FF)
    ||| (0xF900 <= u && u <= 0xFDCF)
    ||| (0xFDF0 <= u && u <= 0xFFFD)
    ||| (0x10000 <= u && u <= 0xEFFFF)
}

/// Characters allowed anywhere in an XML name token.
pub open spec fn spec_name_char(c: char) -> bool {
    let u = c as u32;
    ||| spec_name_start_char(c)
    ||| u == 0x2E  // '.'
    ||| u == 0x2D  // '-'
    ||| (0x30 <= u && u <= 0x39)
    ||| (0x300 <= u && u <= 0x36F)
    ||| (0x203F <= u && u <= 0x2040)
}

/// A valid name token is non-empty, opens with a start character, and
/// every character (the first included) is a name character.
pub open spec fn spec_valid_name(s: Seq<char>) -> bool {
    &&& s.len() > 0
    &&& spec_name_start_char(s[0])
    &&& forall|i: int| 0 <= i < s.len() ==> spec_name_char(#[trigger] s[i])
}

pub fn name_start_char(value: char) -> (r: bool)
    ensures
        r == spec_name_start_char(value),
{
    let u = value as u32;
    u == 0x3A || (0x41 <= u && u < 0x5A) || u == 0x5F || (0x61 <= u && u < 0x7A) || (0xC0 <= u
        && u <= 0xD6) || (0xD8 <= u && u <= 0xF6) || (0xF8 <= u && u <= 0x2FF) || (0x370 <= u && u
        <= 0x37D) || (0x37F <= u && u <= 0x1FFF) || (0x200C <= u && u <= 0x200D) || (0x2070 <= u
        && u <= 0x218F) || (0x2C00 <= u && u <= 0x2FEF) || (0x3001 <= u && u <= 0xD7FF) || (0xF900
        <= u && u <= 0xFDCF) || (0xFDF0 <= u && u <= 0xFFFD) || (0x10000 <= u && u <= 0xEFFFF)
}

pub fn name_char(value: char) -> (r: bool)
    ensures
        r == spec_name_char(value),
{
    let u = value as u32;
    name_start_char(value) || u == 0x2E || u == 0x2D || (0x30 <= u && u <= 0x39) || (0x300 <= u
        && u <= 0x36F) || (0x203F <= u && u <= 0x2040)
}

/// Checks a namespace prefix or element name against the name grammar.
pub fn is_valid_name(name: &str) -> (r: bool)
    ensures
        r == spec_valid_name(name@),
{
    let n = name.unicode_len();
    if n == 0 {
        return false;
    }
    if !name_start_char(name.get_char(0)) {
        return false;
    }
    let mut i: usize = 0;
    while i < n
        invariant
            0 <= i <= n,
            n == name@.len(),
            forall|j: int| 0 <= j < i ==> spec_name_char(#[trigger] name@[j]),
        decreases n - i,
    {
        if !name_char(name.get_char(i)) {
            return false;
        }
        i += 1;
    }
    true
}

} // verus!
