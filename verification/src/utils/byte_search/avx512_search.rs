use vstd::prelude::*;

use crate::utils::byte_search::is_needle;
use crate::utils::byte_search::lemma_match_seq_extend;
use crate::utils::byte_search::lemma_match_seq_prefix;
use crate::utils::byte_search::lemma_match_seq_skip_clean;
use crate::utils::byte_search::lemma_match_skip_chain;
use crate::utils::byte_search::match_seq;
use crate::utils::byte_search::ByteSearch;
use crate::utils::byte_search::BytePosition;
use crate::utils::byte_search::swar_search::emit_group;
use crate::utils::byte_search::swar_search::group_mask;
use crate::utils::byte_search::swar_search::group_mask_tail;
use crate::utils::byte_search::swar_search::lemma_mask_zero;
use crate::utils::byte_search::swar_search::mask_bit;

verus! {

/// The single-lane wide search tier: walks the haystack in 64-byte
/// blocks compared word by word into one combined mask, and skips a
/// whole block when the mask is clear. Matches are produced block by
/// block as the caller asks for them: only the current block's matches
/// are ever held. The match stream is the same `match_seq` that every
/// other tier produces.
pub struct Avx512ByteSearchIter<'a> {
    input: &'a [u8],
    search_bytes: &'a [u8],
    buffered: Vec<BytePosition>,
    buf_pos: usize,
    scanned: usize,
}

impl<'a> ByteSearch for Avx512ByteSearchIter<'a> {
    closed spec fn hay(&self) -> Seq<u8> {
        self.input@
    }

    closed spec fn pats(&self) -> Seq<u8> {
        self.search_bytes@
    }

    closed spec fn emitted(&self) -> int {
        match_seq(self.input@.take(self.scanned as int), self.search_bytes@).len() - (
        self.buffered@.len() - self.buf_pos)
    }

    closed spec fn wf(&self) -> bool {
        &&& self.buf_pos <= self.buffered@.len()
        &&& self.scanned <= self.input@.len()
        &&& !self.search_bytes@.contains(0u8)
        &&& self.buffered@.len() - self.buf_pos <= match_seq(
            self.input@.take(self.scanned as int),
            self.search_bytes@,
        ).len()
        &&& self.buffered@.skip(self.buf_pos as int) == match_seq(
            self.input@.take(self.scanned as int),
            self.search_bytes@,
        ).skip(self.emitted())
    }

    #[verifier::loop_isolation(false)]
    fn next(&mut self) -> (r: Option<BytePosition>) {
        let ghost hay = self.input@;
        let ghost pats = self.search_bytes@;
        let ghost all = match_seq(hay, pats);
        let ghost e0 = self.emitted();
        if self.buf_pos == self.buffered.len() && self.scanned < self.input.len() {
            self.search_blocks();
        }
        if self.buf_pos < self.buffered.len() {
            let ghost ms = match_seq(hay.take(self.scanned as int), pats);
            proof {
                lemma_match_seq_prefix(hay, pats, self.scanned as int);
            }
            let p = self.buffered[self.buf_pos];
            let ghost bp0 = self.buf_pos as int;
            proof {
                assert(self.buffered@[bp0] == self.buffered@.skip(bp0)[0]);
                assert(self.buffered@.skip(bp0)[0] == ms.skip(e0)[0]);
                assert(ms.skip(e0)[0] == ms[e0]);
                assert(ms[e0] == all[e0]);
            }
            self.buf_pos += 1;
            proof {
                assert(self.buffered@.skip(self.buf_pos as int) =~= ms.skip(self.emitted())) by {
                    assert forall|i: int|
                        0 <= i < self.buffered@.len() - self.buf_pos implies self.buffered@.skip(
                        self.buf_pos as int,
                    )[i] == ms.skip(self.emitted())[i] by {
                        assert(self.buffered@.skip(bp0)[i + 1] == ms.skip(e0)[i + 1]);
                    }
                }
            }
            Some(p)
        } else {
            proof {
                assert(hay.take(self.scanned as int) =~= hay);
            }
            None
        }
    }
}

impl<'a> Avx512ByteSearchIter<'a> {
    /// Scans forward in 64-byte blocks — eight word compares folded
    /// into one combined mask — until a block holds a match or the
    /// input ends, keeping just that block's matches. The stretch after
    /// the last whole block falls back to narrow eight-byte steps.
    #[verifier::loop_isolation(false)]
    fn search_blocks(&mut self)
        requires
            old(self).wf(),
            old(self).buf_pos == old(self).buffered@.len(),
            old(self).scanned < old(self).input@.len(),
        ensures
            final(self).wf(),
            final(self).hay() == old(self).hay(),
            final(self).pats() == old(self).pats(),
            final(self).emitted() == old(self).emitted(),
            final(self).buf_pos < final(self).buffered@.len() || final(self).scanned
                == final(self).input@.len(),
    {
        let ghost hay = self.input@;
        let ghost pats = self.search_bytes@;
        let ghost e0 = self.emitted();
        let len = self.input.len();
        self.buffered.clear();
        self.buf_pos = 0;
        proof {
            assert(self.buffered@.skip(0) =~= match_seq(hay.take(self.scanned as int), pats).skip(
                e0,
            ));
        }
        while self.scanned < len && self.buffered.len() == 0
            invariant
                self.input@ == hay,
                self.search_bytes@ == pats,
                self.buf_pos == 0,
                self.scanned <= len,
                e0 <= match_seq(hay.take(self.scanned as int), pats).len(),
                match_seq(hay.take(self.scanned as int), pats).len() - self.buffered@.len() == e0,
                self.buffered@ == match_seq(hay.take(self.scanned as int), pats).skip(e0),
            decreases len - self.scanned,
        {
            let base = self.scanned;
            proof {
                lemma_match_seq_extend(hay, pats, base as int, base as int);
            }
            if len - base >= 64 {
                let m0 = group_mask(self.input, self.search_bytes, base);
                let m1 = group_mask(self.input, self.search_bytes, base + 8);
                let m2 = group_mask(self.input, self.search_bytes, base + 16);
                let m3 = group_mask(self.input, self.search_bytes, base + 24);
                let m4 = group_mask(self.input, self.search_bytes, base + 32);
                let m5 = group_mask(self.input, self.search_bytes, base + 40);
                let m6 = group_mask(self.input, self.search_bytes, base + 48);
                let m7 = group_mask(self.input, self.search_bytes, base + 56);
                let combined = m0 | m1 | m2 | m3 | m4 | m5 | m6 | m7;
                if combined == 0 {
                    proof {
                        assert(m0 == 0 && m1 == 0 && m2 == 0 && m3 == 0 && m4 == 0 && m5 == 0
                            && m6 == 0 && m7 == 0) by (bit_vector)
                            requires
                                (m0 | m1 | m2 | m3 | m4 | m5 | m6 | m7) == 0u64,
                        ;
                        lemma_mask_zero();
                        assert forall|j: int| base <= j < base + 64 implies !is_needle(
                            pats,
                            #[trigger] hay[j],
                        ) by {
                            let d = j - base;
                            if d < 8 {
                                assert(!mask_bit(m0, d as u64));
                            } else if d < 16 {
                                assert(!mask_bit(m1, (d - 8) as u64));
                            } else if d < 24 {
                                assert(!mask_bit(m2, (d - 16) as u64));
                            } else if d < 32 {
                                assert(!mask_bit(m3, (d - 24) as u64));
                            } else if d < 40 {
                                assert(!mask_bit(m4, (d - 32) as u64));
                            } else if d < 48 {
                                assert(!mask_bit(m5, (d - 40) as u64));
                            } else if d < 56 {
                                assert(!mask_bit(m6, (d - 48) as u64));
                            } else {
                                assert(!mask_bit(m7, (d - 56) as u64));
                            }
                        }
                        lemma_match_seq_skip_clean(hay, pats, base as int, base + 64);
                        assert(match_seq(hay.take(base + 64), pats).skip(e0) =~= self.buffered@);
                        lemma_match_seq_extend(hay, pats, base as int, base + 64);
                    }
                    self.scanned = base + 64;
                } else {
                    let mut g: usize = 0;
                    while g < 8
                        invariant
                            self.input@ == hay,
                            self.search_bytes@ == pats,
                            self.scanned == base,
                            0 <= g <= 8,
                            e0 <= match_seq(hay.take(base + 8 * g), pats).len(),
                            match_seq(hay.take(base + 8 * g), pats).len() - self.buffered@.len()
                                == e0,
                            self.buffered@ == match_seq(hay.take(base + 8 * g), pats).skip(e0),
                            self.buf_pos == 0,
                        decreases 8 - g,
                    {
                        let gm = group_mask(self.input, self.search_bytes, base + 8 * g);
                        emit_group(
                            self.input,
                            self.search_bytes,
                            base + 8 * g,
                            8,
                            gm,
                            &mut self.buffered,
                        );
                        proof {
                            lemma_match_skip_chain(
                                hay,
                                pats,
                                base as int,
                                base + 8 * g,
                                base + 8 * g + 8,
                            );
                            lemma_match_seq_extend(hay, pats, base as int, base + 8 * g + 8);
                            assert(self.buffered@ =~= match_seq(
                                hay.take(base + 8 * (g + 1)),
                                pats,
                            ).skip(e0)) by {
                                assert(match_seq(hay.take(base as int), pats).skip(e0)
                                    =~= Seq::<BytePosition>::empty());
                            }
                        }
                        g += 1;
                    }
                    self.scanned = base + 64;
                }
            } else if len - base >= 8 {
                let m = group_mask(self.input, self.search_bytes, base);
                if m != 0 {
                    emit_group(self.input, self.search_bytes, base, 8, m, &mut self.buffered);
                } else {
                    proof {
                        lemma_mask_zero();
                        assert forall|j: int| base <= j < base + 8 implies !is_needle(
                            pats,
                            #[trigger] hay[j],
                        ) by {
                            assert(!mask_bit(m, (j - base) as u64));
                        }
                        lemma_match_seq_skip_clean(hay, pats, base as int, base + 8);
                        assert(match_seq(hay.take(base + 8), pats).skip(e0) =~= self.buffered@);
                    }
                }
                proof {
                    lemma_match_seq_extend(hay, pats, base as int, base + 8);
                }
                self.scanned = base + 8;
            } else {
                let m = group_mask_tail(self.input, self.search_bytes, base);
                emit_group(self.input, self.search_bytes, base, len - base, m, &mut self.buffered);
                proof {
                    lemma_match_seq_extend(hay, pats, base as int, len as int);
                }
                self.scanned = len;
            }
        }
        proof {
            assert(self.buffered@.skip(0) =~= self.buffered@);
        }
    }

    /// The needle set must not contain the zero byte: padded tail
    /// blocks must never match on their padding.
    pub fn new(input: &'a [u8], search_bytes: &'a [u8]) -> (r: Self)
        requires
            !search_bytes@.contains(0u8),
        ensures
            r.hay() == input@,
            r.pats() == search_bytes@,
            r.emitted() == 0,
            r.wf(),
    {
        let r = Self { input, search_bytes, buffered: Vec::new(), buf_pos: 0, scanned: 0 };
        proof {
            assert(input@.take(0) =~= Seq::<u8>::empty());
            assert(r.buffered@.skip(0) =~= match_seq(input@.take(0), search_bytes@).skip(0));
        }
        r
    }
}

} // verus!
