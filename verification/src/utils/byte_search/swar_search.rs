use vstd::prelude::*;

use crate::utils::byte_search::is_needle;
use crate::utils::byte_search::lemma_match_seq_skip_clean;
use crate::utils::byte_search::lemma_match_seq_take_step;
use crate::utils::byte_search::lemma_match_seq_extend;
use crate::utils::byte_search::lemma_match_seq_prefix;
use crate::utils::byte_search::match_seq;
use crate::utils::byte_search::ByteSearch;
use crate::utils::byte_search::BytePosition;

verus! {

/// The eight bytes of one block packed into a machine word, lowest byte
/// first, as a little-endian read of memory would produce.
pub open spec fn word_of(
    b0: u8,
    b1: u8,
    b2: u8,
    b3: u8,
    b4: u8,
    b5: u8,
    b6: u8,
    b7: u8,
) -> u64 {
    (b0 as u64) | ((b1 as u64) << 8u64) | ((b2 as u64) << 16u64) | ((b3 as u64) << 24u64) | ((
    b4 as u64) << 32u64) | ((b5 as u64) << 40u64) | ((b6 as u64) << 48u64) | ((b7 as u64)
        << 56u64)
}

/// One byte replicated into every lane of a word.
pub open spec fn bcast8(n: u8) -> u64 {
    (n as u64) | ((n as u64) << 8u64) | ((n as u64) << 16u64) | ((n as u64) << 24u64) | ((
    n as u64) << 32u64) | ((n as u64) << 40u64) | ((n as u64) << 48u64) | ((n as u64) << 56u64)
}

/// The branchless word compare: the high bit of lane `j` of the result is
/// set exactly when lane `j` of `w` equals the lane of `bc`.
pub open spec fn swar_mask(w: u64, bc: u64) -> u64 {
    ((((!(w ^ bc)) & 0x7f7f7f7f7f7f7f7fu64) + 0x0101010101010101u64) as u64) & ((!(w ^ bc))
        & 0x8080808080808080u64)
}

/// Reads the comparison bit of lane `j` out of a mask word.
pub open spec fn mask_bit(m: u64, j: u64) -> bool {
    (m >> ((8 * j + 7) as u64)) & 1 == 1
}

/// Correctness of the branchless compare, one lane at a time.
pub proof fn lemma_swar_mask(b0: u8, b1: u8, b2: u8, b3: u8, b4: u8, b5: u8, b6: u8, b7: u8, n: u8)
    ensures
        mask_bit(swar_mask(word_of(b0, b1, b2, b3, b4, b5, b6, b7), bcast8(n)), 0) <==> (b0 == n),
        mask_bit(swar_mask(word_of(b0, b1, b2, b3, b4, b5, b6, b7), bcast8(n)), 1) <==> (b1 == n),
        mask_bit(swar_mask(word_of(b0, b1, b2, b3, b4, b5, b6, b7), bcast8(n)), 2) <==> (b2 == n),
        mask_bit(swar_mask(word_of(b0, b1, b2, b3, b4, b5, b6, b7), bcast8(n)), 3) <==> (b3 == n),
        mask_bit(swar_mask(word_of(b0, b1, b2, b3, b4, b5, b6, b7), bcast8(n)), 4) <==> (b4 == n),
        mask_bit(swar_mask(word_of(b0, b1, b2, b3, b4, b5, b6, b7), bcast8(n)), 5) <==> (b5 == n),
        mask_bit(swar_mask(word_of(b0, b1, b2, b3, b4, b5, b6, b7), bcast8(n)), 6) <==> (b6 == n),
        mask_bit(swar_mask(word_of(b0, b1, b2, b3, b4, b5, b6, b7), bcast8(n)), 7) <==> (b7 == n),
{
    assert((mask_bit(swar_mask(word_of(b0, b1, b2, b3, b4, b5, b6, b7), bcast8(n)), 0) <==> (b0
        == n)) && (mask_bit(swar_mask(word_of(b0, b1, b2, b3, b4, b5, b6, b7), bcast8(n)), 1)
        <==> (b1 == n)) && (mask_bit(
        swar_mask(word_of(b0, b1, b2, b3, b4, b5, b6, b7), bcast8(n)),
        2,
    ) <==> (b2 == n)) && (mask_bit(
        swar_mask(word_of(b0, b1, b2, b3, b4, b5, b6, b7), bcast8(n)),
        3,
    ) <==> (b3 == n)) && (mask_bit(
        swar_mask(word_of(b0, b1, b2, b3, b4, b5, b6, b7), bcast8(n)),
        4,
    ) <==> (b4 == n)) && (mask_bit(
        swar_mask(word_of(b0, b1, b2, b3, b4, b5, b6, b7), bcast8(n)),
        5,
    ) <==> (b5 == n)) && (mask_bit(
        swar_mask(word_of(b0, b1, b2, b3, b4, b5, b6, b7), bcast8(n)),
        6,
    ) <==> (b6 == n)) && (mask_bit(
        swar_mask(word_of(b0, b1, b2, b3, b4, b5, b6, b7), bcast8(n)),
        7,
    ) <==> (b7 == n))) by (bit_vector);
}

/// Combining two masks with `|` combines their lane bits.
pub proof fn lemma_mask_or(x: u64, y: u64)
    ensures
        forall|j: u64| j < 8 ==> (mask_bit(x | y, j) <==> (mask_bit(x, j) || mask_bit(y, j))),
{
    assert(forall|j: u64|
        j < 8 ==> (mask_bit(x | y, j) <==> (mask_bit(x, j) || mask_bit(y, j)))) by (bit_vector);
}

/// The zero mask has no lane bit set.
pub proof fn lemma_mask_zero()
    ensures
        forall|j: u64| j < 8 ==> !mask_bit(0u64, j),
{
    assert(forall|j: u64| j < 8 ==> !mask_bit(0u64, j)) by (bit_vector);
}

/// Membership in a one-longer prefix of the needle set.
pub proof fn lemma_contains_take_step(s: Seq<u8>, k: int)
    requires
        0 <= k < s.len(),
    ensures
        forall|x: u8|
            #![trigger s.take(k + 1).contains(x)]
            s.take(k + 1).contains(x) <==> (s.take(k).contains(x) || s[k] == x),
{
    assert(s.take(k + 1) =~= s.take(k).push(s[k]));
    assert forall|x: u8| s.take(k + 1).contains(x) <==> (s.take(k).contains(x) || s[k] == x) by {
        if s.take(k + 1).contains(x) {
            let i = choose|i: int| 0 <= i < s.take(k + 1).len() && #[trigger] s.take(k + 1)[i] == x;
            if i < k {
                assert(s.take(k)[i] == x);
            }
        }
        if s.take(k).contains(x) {
            let i = choose|i: int| 0 <= i < s.take(k).len() && #[trigger] s.take(k)[i] == x;
            assert(s.take(k + 1)[i] == x);
        }
        if s[k] == x {
            assert(s.take(k + 1)[k] == x);
        }
    }
}

/// The compare mask of one full eight-byte block against the whole
/// needle set: lane bit `j` is set exactly when byte `base + j` of the
/// haystack is a needle.
pub(crate) fn group_mask(input: &[u8], search_bytes: &[u8], base: usize) -> (m: u64)
    requires
        base + 8 <= input@.len(),
    ensures
        forall|j: u64|
            j < 8 ==> (#[trigger] mask_bit(m, j) <==> is_needle(
                search_bytes@,
                input@[base + j],
            )),
{
    let c0 = input[base];
    let c1 = input[base + 1];
    let c2 = input[base + 2];
    let c3 = input[base + 3];
    let c4 = input[base + 4];
    let c5 = input[base + 5];
    let c6 = input[base + 6];
    let c7 = input[base + 7];
    group_mask_bytes(c0, c1, c2, c3, c4, c5, c6, c7, search_bytes)
}

/// The compare mask of the final, short block: the missing bytes are
/// padded with zero, so with a zero-free needle set the padding can
/// never raise a lane bit.
pub(crate) fn group_mask_tail(input: &[u8], search_bytes: &[u8], base: usize) -> (m: u64)
    requires
        base < input@.len() < base + 8,
    ensures
        forall|j: u64|
            j < input@.len() - base ==> (#[trigger] mask_bit(m, j) <==> is_needle(
                search_bytes@,
                input@[base + j],
            )),
{
    let len = input.len();
    let c0 = input[base];
    let c1 = if len - base > 1 { input[base + 1] } else { 0 };
    let c2 = if len - base > 2 { input[base + 2] } else { 0 };
    let c3 = if len - base > 3 { input[base + 3] } else { 0 };
    let c4 = if len - base > 4 { input[base + 4] } else { 0 };
    let c5 = if len - base > 5 { input[base + 5] } else { 0 };
    let c6 = if len - base > 6 { input[base + 6] } else { 0 };
    let c7 = 0u8;
    group_mask_bytes(c0, c1, c2, c3, c4, c5, c6, c7, search_bytes)
}

/// The word compare proper: packs the block into a word and folds the
/// branchless compare over the needle set.
#[verifier::loop_isolation(false)]
fn group_mask_bytes(
    c0: u8,
    c1: u8,
    c2: u8,
    c3: u8,
    c4: u8,
    c5: u8,
    c6: u8,
    c7: u8,
    search_bytes: &[u8],
) -> (m: u64)
    ensures
        mask_bit(m, 0) <==> is_needle(search_bytes@, c0),
        mask_bit(m, 1) <==> is_needle(search_bytes@, c1),
        mask_bit(m, 2) <==> is_needle(search_bytes@, c2),
        mask_bit(m, 3) <==> is_needle(search_bytes@, c3),
        mask_bit(m, 4) <==> is_needle(search_bytes@, c4),
        mask_bit(m, 5) <==> is_needle(search_bytes@, c5),
        mask_bit(m, 6) <==> is_needle(search_bytes@, c6),
        mask_bit(m, 7) <==> is_needle(search_bytes@, c7),
{
    let ghost blk: Seq<u8> = seq![c0, c1, c2, c3, c4, c5, c6, c7];
    let w: u64 = (c0 as u64) | ((c1 as u64) << 8u64) | ((c2 as u64) << 16u64) | ((c3 as u64)
        << 24u64) | ((c4 as u64) << 32u64) | ((c5 as u64) << 40u64) | ((c6 as u64) << 48u64) | ((
    c7 as u64) << 56u64);
    let mut m: u64 = 0;
    let mut k: usize = 0;
    proof {
        lemma_mask_zero();
        assert(search_bytes@.take(0) =~= Seq::<u8>::empty());
    }
    while k < search_bytes.len()
        invariant
            0 <= k <= search_bytes@.len(),
            forall|j: u64|
                j < 8 ==> (#[trigger] mask_bit(m, j) <==> is_needle(
                    search_bytes@.take(k as int),
                    blk[j as int],
                )),
        decreases search_bytes@.len() - k,
    {
        let n = search_bytes[k];
        let bc: u64 = (n as u64) | ((n as u64) << 8u64) | ((n as u64) << 16u64) | ((n as u64)
            << 24u64) | ((n as u64) << 32u64) | ((n as u64) << 40u64) | ((n as u64) << 48u64) | ((
        n as u64) << 56u64);
        let e: u64 = !(w ^ bc);
        let lo: u64 = e & 0x7f7f7f7f7f7f7f7f;
        proof {
            assert(e & 0x7f7f7f7f7f7f7f7fu64 <= 0x7f7f7f7f7f7f7f7fu64) by (bit_vector);
        }
        let s: u64 = lo + 0x0101010101010101;
        let mk: u64 = s & (e & 0x8080808080808080);
        proof {
            assert(w == word_of(c0, c1, c2, c3, c4, c5, c6, c7));
            assert(bc == bcast8(n));
            assert(mk == swar_mask(w, bc));
            lemma_swar_mask(c0, c1, c2, c3, c4, c5, c6, c7, n);
            lemma_mask_or(m, mk);
            lemma_contains_take_step(search_bytes@, k as int);
        }
        m = m | mk;
        k += 1;
    }
    proof {
        assert(search_bytes@.take(search_bytes@.len() as int) =~= search_bytes@);
    }
    m
}

/// Turns the set lane bits of one block's mask into matches, in order.
#[verifier::loop_isolation(false)]
pub(crate) fn emit_group(
    input: &[u8],
    search_bytes: &[u8],
    base: usize,
    lim: usize,
    m: u64,
    out: &mut Vec<BytePosition>,
)
    requires
        base + lim <= input@.len(),
        lim <= 8,
        forall|j: u64|
            j < lim ==> (#[trigger] mask_bit(m, j) <==> is_needle(
                search_bytes@,
                input@[base + j],
            )),
    ensures
        final(out)@ == old(out)@ + match_seq(input@.take(base + lim as int), search_bytes@).skip(
            match_seq(input@.take(base as int), search_bytes@).len() as int,
        ),
{
    let total = input.len();
    let ghost c0 = match_seq(input@.take(base as int), search_bytes@).len() as int;
    proof {
        assert(base + lim <= total);
        assert(match_seq(input@.take(base as int), search_bytes@).skip(c0)
            =~= Seq::<BytePosition>::empty());
    }
    let mut j: usize = 0;
    while j < lim
        invariant
            0 <= j <= lim,
            c0 <= match_seq(input@.take(base + j as int), search_bytes@).len(),
            out@ == old(out)@ + match_seq(input@.take(base + j as int), search_bytes@).skip(c0),
        decreases lim - j,
    {
        let sh: u64 = 8 * (j as u64) + 7;
        proof {
            lemma_match_seq_take_step(input@, search_bytes@, base + j as int);
        }
        if ((m >> sh) & 1) == 1 {
            assert(mask_bit(m, j as u64));
            let p = BytePosition { index: base + j, value: input[base + j] };
            out.push(p);
            proof {
                assert(match_seq(input@.take(base + j + 1 as int), search_bytes@).skip(c0)
                    =~= match_seq(input@.take(base + j as int), search_bytes@).skip(c0).push(p));
                assert(out@ =~= old(out)@ + match_seq(
                    input@.take(base + j + 1 as int),
                    search_bytes@,
                ).skip(c0));
            }
        } else {
            assert(!mask_bit(m, j as u64));
            assert(out@ =~= old(out)@ + match_seq(
                input@.take(base + j + 1 as int),
                search_bytes@,
            ).skip(c0));
        }
        j += 1;
    }
}

/// The word-at-a-time search tier: compares eight haystack bytes per
/// step with a branchless SWAR mask, padding the tail block with zero
/// bytes. Matches are produced block by block as the caller asks for
/// them: only the current block's matches are ever held. The match
/// stream is the same `match_seq` that every other tier produces.
pub struct SwarByteSearchIter<'a> {
    input: &'a [u8],
    search_bytes: &'a [u8],
    buffered: Vec<BytePosition>,
    buf_pos: usize,
    scanned: usize,
}

impl<'a> ByteSearch for SwarByteSearchIter<'a> {
    closed spec fn hay(&self) -> Seq<u8> {
        self.input@
    }

    closed spec fn pats(&self) -> Seq<u8> {
        self.search_bytes@
    }

    closed spec fn emitted(&self) -> int {
        match_seq(self.input@.take(self.scanned as int), self.search_bytes@).len() - (
        self.buffered@.len() - self.buf_pos)
    }

    closed spec fn wf(&self) -> bool {
        &&& self.buf_pos <= self.buffered@.len()
        &&& self.scanned <= self.input@.len()
        &&& !self.search_bytes@.contains(0u8)
        &&& self.buffered@.len() - self.buf_pos <= match_seq(
            self.input@.take(self.scanned as int),
            self.search_bytes@,
        ).len()
        &&& self.buffered@.skip(self.buf_pos as int) == match_seq(
            self.input@.take(self.scanned as int),
            self.search_bytes@,
        ).skip(self.emitted())
    }

    #[verifier::loop_isolation(false)]
    fn next(&mut self) -> (r: Option<BytePosition>) {
        let ghost hay = self.input@;
        let ghost pats = self.search_bytes@;
        let ghost all = match_seq(hay, pats);
        let ghost e0 = self.emitted();
        if self.buf_pos == self.buffered.len() && self.scanned < self.input.len() {
            self.search_blocks();
        }
        if self.buf_pos < self.buffered.len() {
            let ghost ms = match_seq(hay.take(self.scanned as int), pats);
            proof {
                lemma_match_seq_prefix(hay, pats, self.scanned as int);
            }
            let p = self.buffered[self.buf_pos];
            let ghost bp0 = self.buf_pos as int;
            proof {
                assert(self.buffered@[bp0] == self.buffered@.skip(bp0)[0]);
                assert(self.buffered@.skip(bp0)[0] == ms.skip(e0)[0]);
                assert(ms.skip(e0)[0] == ms[e0]);
                assert(ms[e0] == all[e0]);
            }
            self.buf_pos += 1;
            proof {
                assert(self.buffered@.skip(self.buf_pos as int) =~= ms.skip(self.emitted())) by {
                    assert forall|i: int|
                        0 <= i < self.buffered@.len() - self.buf_pos implies self.buffered@.skip(
                        self.buf_pos as int,
                    )[i] == ms.skip(self.emitted())[i] by {
                        assert(self.buffered@.skip(bp0)[i + 1] == ms.skip(e0)[i + 1]);
                    }
                }
            }
            Some(p)
        } else {
            proof {
                assert(hay.take(self.scanned as int) =~= hay);
            }
            None
        }
    }
}

impl<'a> SwarByteSearchIter<'a> {
    /// Scans forward in eight-byte blocks until a block holds a match
    /// or the input ends, keeping just that block's matches.
    #[verifier::loop_isolation(false)]
    fn search_blocks(&mut self)
        requires
            old(self).wf(),
            old(self).buf_pos == old(self).buffered@.len(),
            old(self).scanned < old(self).input@.len(),
        ensures
            final(self).wf(),
            final(self).hay() == old(self).hay(),
            final(self).pats() == old(self).pats(),
            final(self).emitted() == old(self).emitted(),
            final(self).buf_pos < final(self).buffered@.len() || final(self).scanned
                == final(self).input@.len(),
    {
        let ghost hay = self.input@;
        let ghost pats = self.search_bytes@;
        let ghost e0 = self.emitted();
        let len = self.input.len();
        self.buffered.clear();
        self.buf_pos = 0;
        proof {
            assert(self.buffered@.skip(0) =~= match_seq(hay.take(self.scanned as int), pats).skip(
                e0,
            ));
        }
        while self.scanned < len && self.buffered.len() == 0
            invariant
                self.input@ == hay,
                self.search_bytes@ == pats,
                self.buf_pos == 0,
                self.scanned <= len,
                e0 <= match_seq(hay.take(self.scanned as int), pats).len(),
                match_seq(hay.take(self.scanned as int), pats).len() - self.buffered@.len() == e0,
                self.buffered@ == match_seq(hay.take(self.scanned as int), pats).skip(e0),
            decreases len - self.scanned,
        {
            let base = self.scanned;
            proof {
                lemma_match_seq_extend(hay, pats, base as int, base as int);
            }
            if len - base >= 8 {
                let m = group_mask(self.input, self.search_bytes, base);
                if m != 0 {
                    emit_group(self.input, self.search_bytes, base, 8, m, &mut self.buffered);
                } else {
                    proof {
                        lemma_mask_zero();
                        assert forall|j: int| base <= j < base + 8 implies !is_needle(
                            pats,
                            #[trigger] hay[j],
                        ) by {
                            assert(!mask_bit(m, (j - base) as u64));
                        }
                        lemma_match_seq_skip_clean(hay, pats, base as int, base + 8);
                        assert(match_seq(hay.take(base + 8), pats).skip(e0) =~= self.buffered@);
                    }
                }
                proof {
                    lemma_match_seq_extend(hay, pats, base as int, base + 8);
                }
                self.scanned = base + 8;
            } else {
                let m = group_mask_tail(self.input, self.search_bytes, base);
                emit_group(self.input, self.search_bytes, base, len - base, m, &mut self.buffered);
                proof {
                    lemma_match_seq_extend(hay, pats, base as int, len as int);
                }
                self.scanned = len;
            }
        }
        proof {
            assert(self.buffered@.skip(0) =~= self.buffered@);
        }
    }

    /// The needle set must not contain the zero byte: padded tail
    /// blocks must never match on their padding.
    pub fn new(input: &'a [u8], search_bytes: &'a [u8]) -> (r: Self)
        requires
            !search_bytes@.contains(0u8),
        ensures
            r.hay() == input@,
            r.pats() == search_bytes@,
            r.emitted() == 0,
            r.wf(),
    {
        let r = Self { input, search_bytes, buffered: Vec::new(), buf_pos: 0, scanned: 0 };
        proof {
            assert(input@.take(0) =~= Seq::<u8>::empty());
            assert(r.buffered@.skip(0) =~= match_seq(input@.take(0), search_bytes@).skip(0));
        }
        r
    }
}

} // verus!
