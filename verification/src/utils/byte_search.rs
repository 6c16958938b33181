pub mod avx2_search;
pub mod avx512_search;
pub mod swar_search;

use vstd::prelude::*;

verus! {

/// One match produced by a byte search: the position in the haystack and
/// the needle byte found there.
#[derive(Debug, Clone, Copy, PartialEq, Eq, Structural)]
pub struct BytePosition {
    pub index: usize,
    pub value: u8,
}

/// True when `b` belongs to the needle set.
pub open spec fn is_needle(needles: Seq<u8>, b: u8) -> bool {
    needles.contains(b)
}

/// The matches of a needle set in a haystack, in ascending index order.
///
/// This single definition is the contract that all search tiers share:
/// whatever blocking or bit tricks a tier uses, its stream of matches
/// must equal this sequence.
pub open spec fn match_seq(hay: Seq<u8>, needles: Seq<u8>) -> Seq<BytePosition>
    decreases hay.len(),
{
    if hay.len() == 0 {
        Seq::empty()
    } else {
        match_seq(hay.drop_last(), needles) + (if is_needle(needles, hay.last()) {
            seq![BytePosition { index: (hay.len() - 1) as usize, value: hay.last() }]
        } else {
            Seq::empty()
        })
    }
}

/// Extending the scanned prefix by one byte adds that byte's match, if any.
pub proof fn lemma_match_seq_take_step(hay: Seq<u8>, needles: Seq<u8>, i: int)
    requires
        0 <= i < hay.len(),
    ensures
        match_seq(hay.take(i + 1), needles) == match_seq(hay.take(i), needles) + (if is_needle(
            needles,
            hay[i],
        ) {
            seq![BytePosition { index: i as usize, value: hay[i] }]
        } else {
            Seq::empty()
        }),
{
    let t = hay.take(i + 1);
    assert(t.drop_last() =~= hay.take(i));
    assert(t.last() == hay[i]);
    if is_needle(needles, hay[i]) {
        assert(match_seq(t, needles) == match_seq(hay.take(i), needles) + seq![
            BytePosition { index: i as usize, value: hay[i] },
        ]);
    }
}

/// A stretch of the haystack without needles adds no matches.
pub proof fn lemma_match_seq_skip_clean(hay: Seq<u8>, needles: Seq<u8>, a: int, b: int)
    requires
        0 <= a <= b <= hay.len(),
        forall|j: int| a <= j < b ==> !is_needle(needles, #[trigger] hay[j]),
    ensures
        match_seq(hay.take(b), needles) == match_seq(hay.take(a), needles),
    decreases b - a,
{
    if a < b {
        lemma_match_seq_skip_clean(hay, needles, a, b - 1);
        lemma_match_seq_take_step(hay, needles, b - 1);
        assert(match_seq(hay.take(b), needles) =~= match_seq(hay.take(b - 1), needles));
    }
}

/// The matches of a prefix are a prefix of the matches of the whole.
pub proof fn lemma_match_seq_prefix(hay: Seq<u8>, needles: Seq<u8>, h: int)
    requires
        0 <= h <= hay.len(),
    ensures
        match_seq(hay.take(h), needles).len() <= match_seq(hay, needles).len(),
        match_seq(hay.take(h), needles) == match_seq(hay, needles).take(
            match_seq(hay.take(h), needles).len() as int,
        ),
    decreases hay.len() - h,
{
    if h == hay.len() {
        assert(hay.take(h) =~= hay);
        assert(match_seq(hay, needles).take(match_seq(hay, needles).len() as int) =~= match_seq(
            hay,
            needles,
        ));
    } else {
        lemma_match_seq_take_step(hay, needles, h);
        lemma_match_seq_prefix(hay, needles, h + 1);
        let c = match_seq(hay.take(h), needles).len() as int;
        let c1 = match_seq(hay.take(h + 1), needles).len() as int;
        assert(match_seq(hay.take(h), needles) =~= match_seq(hay, needles).take(c)) by {
            assert(match_seq(hay.take(h + 1), needles) == match_seq(hay, needles).take(c1));
            assert forall|k: int| 0 <= k < c implies match_seq(hay.take(h), needles)[k]
                == match_seq(hay, needles)[k] by {
                assert(match_seq(hay.take(h + 1), needles)[k] == match_seq(hay, needles).take(
                    c1,
                )[k]);
            }
        }
    }
}

/// The matches of a longer prefix are the matches of a shorter one
/// followed by the matches found in between.
pub proof fn lemma_match_seq_extend(hay: Seq<u8>, needles: Seq<u8>, a: int, b: int)
    requires
        0 <= a <= b <= hay.len(),
    ensures
        match_seq(hay.take(a), needles).len() <= match_seq(hay.take(b), needles).len(),
        match_seq(hay.take(b), needles) == match_seq(hay.take(a), needles) + match_seq(
            hay.take(b),
            needles,
        ).skip(match_seq(hay.take(a), needles).len() as int),
{
    lemma_match_seq_prefix(hay.take(b), needles, a);
    assert(hay.take(b).take(a) =~= hay.take(a));
    let c = match_seq(hay.take(a), needles).len() as int;
    assert(match_seq(hay.take(b), needles) =~= match_seq(hay.take(b), needles).take(c)
        + match_seq(hay.take(b), needles).skip(c));
}

/// Matches gathered over two adjacent stretches chain into the matches
/// of the combined stretch.
pub proof fn lemma_match_skip_chain(hay: Seq<u8>, needles: Seq<u8>, a: int, b: int, c: int)
    requires
        0 <= a <= b <= c <= hay.len(),
    ensures
        match_seq(hay.take(b), needles).skip(match_seq(hay.take(a), needles).len() as int)
            + match_seq(hay.take(c), needles).skip(match_seq(hay.take(b), needles).len() as int)
            == match_seq(hay.take(c), needles).skip(match_seq(hay.take(a), needles).len() as int),
{
    lemma_match_seq_extend(hay, needles, a, b);
    lemma_match_seq_extend(hay, needles, b, c);
    lemma_match_seq_extend(hay, needles, a, c);
    lemma_match_seq_prefix(hay.take(c), needles, b);
    assert(hay.take(c).take(b) =~= hay.take(b));
    let ca = match_seq(hay.take(a), needles).len() as int;
    let cb = match_seq(hay.take(b), needles).len() as int;
    assert(match_seq(hay.take(b), needles) == match_seq(hay.take(c), needles).take(cb));
    assert(match_seq(hay.take(b), needles).skip(ca) + match_seq(hay.take(c), needles).skip(cb)
        =~= match_seq(hay.take(c), needles).skip(ca)) by {
        assert forall|i: int|
            0 <= i < match_seq(hay.take(c), needles).len() - ca implies (match_seq(
            hay.take(b),
            needles,
        ).skip(ca) + match_seq(hay.take(c), needles).skip(cb))[i] == match_seq(
            hay.take(c),
            needles,
        ).skip(ca)[i] by {
            if i < cb - ca {
                assert(match_seq(hay.take(b), needles)[ca + i] == match_seq(hay.take(c), needles).take(
                    cb,
                )[ca + i]);
            }
        }
    }
}

/// The basic facts of the match sequence: every entry is a needle found
/// where it says, entries come in strictly ascending order, and every
/// needle position in the haystack is listed.
pub proof fn lemma_match_seq_props(hay: Seq<u8>, needles: Seq<u8>)
    requires
        hay.len() <= usize::MAX,
    ensures
        forall|k: int|
            0 <= k < match_seq(hay, needles).len() ==> {
                let p = #[trigger] match_seq(hay, needles)[k];
                &&& p.index < hay.len()
                &&& hay[p.index as int] == p.value
                &&& is_needle(needles, p.value)
            },
        forall|k: int, l: int|
            0 <= k < l < match_seq(hay, needles).len() ==> (#[trigger] match_seq(
                hay,
                needles,
            )[k]).index < (#[trigger] match_seq(hay, needles)[l]).index,
        forall|i: int|
            0 <= i < hay.len() && is_needle(needles, #[trigger] hay[i]) ==> exists|k: int|
                0 <= k < match_seq(hay, needles).len() && (#[trigger] match_seq(
                    hay,
                    needles,
                )[k]).index == i,
    decreases hay.len(),
{
    if hay.len() > 0 {
        lemma_match_seq_props(hay.drop_last(), needles);
        let pre = match_seq(hay.drop_last(), needles);
        let ms = match_seq(hay, needles);
        let n = hay.len() - 1;
        assert(hay.drop_last() =~= hay.take(n));
        assert(forall|j: int| 0 <= j < n ==> hay.drop_last()[j] == hay[j]);
        if is_needle(needles, hay.last()) {
            assert(ms == pre + seq![
                BytePosition { index: n as usize, value: hay.last() },
            ]);
            assert((pre + seq![BytePosition { index: n as usize, value: hay.last() }])[pre.len() as int]
                == BytePosition { index: n as usize, value: hay.last() });
            assert(ms[pre.len() as int].index == n);
            assert forall|i: int|
                0 <= i < hay.len() && is_needle(needles, #[trigger] hay[i]) implies exists|k: int|
                0 <= k < ms.len() && (#[trigger] ms[k]).index == i by {
                if i < n {
                    let k = choose|k: int|
                        0 <= k < pre.len() && (#[trigger] pre[k]).index == i;
                    assert(ms[k].index == i);
                } else {
                    assert(ms[pre.len() as int].index == i);
                }
            }
        } else {
            assert(ms =~= pre);
            assert forall|i: int|
                0 <= i < hay.len() && is_needle(needles, #[trigger] hay[i]) implies exists|k: int|
                0 <= k < ms.len() && (#[trigger] ms[k]).index == i by {
                assert(i < n || i == n);
                if i < n {
                    let k = choose|k: int|
                        0 <= k < pre.len() && (#[trigger] pre[k]).index == i;
                    assert(ms[k].index == i);
                }
            }
        }
    }
}

/// The one contract all search strategies share: a searcher walks a
/// fixed haystack for a fixed needle set and hands out the entries of
/// `match_seq`, one per call, in order. Which strategy runs is a matter
/// of speed alone, never of results.
pub trait ByteSearch {
    /// The haystack this searcher scans.
    spec fn hay(&self) -> Seq<u8>;

    /// The needle set this searcher looks for.
    spec fn pats(&self) -> Seq<u8>;

    /// How many matches this searcher has handed out so far.
    spec fn emitted(&self) -> int;

    spec fn wf(&self) -> bool;

    /// Hands out the next match, in ascending index order.
    fn next(&mut self) -> (r: Option<BytePosition>)
        requires
            old(self).wf(),
        ensures
            final(self).wf(),
            final(self).hay() == old(self).hay(),
            final(self).pats() == old(self).pats(),
            ({
                let all = match_seq(old(self).hay(), old(self).pats());
                if old(self).emitted() < all.len() {
                    &&& r == Some(all[old(self).emitted()])
                    &&& final(self).emitted() == old(self).emitted() + 1
                } else {
                    &&& r is None
                    &&& final(self).emitted() == old(self).emitted()
                }
            }),
    ;
}

fn slice_contains(s: &[u8], b: u8) -> (r: bool)
    ensures
        r == s@.contains(b),
{
    let mut i: usize = 0;
    while i < s.len()
        invariant
            0 <= i <= s@.len(),
            forall|j: int| 0 <= j < i ==> s@[j] != b,
        decreases s@.len() - i,
    {
        if s[i] == b {
            return true;
        }
        i += 1;
    }
    false
}

/// The byte-by-byte search tier: scans one byte at a time, testing each
/// against the needle set.
pub struct BasicByteSearch<'a> {
    input: &'a [u8],
    search_bytes: &'a [u8],
    current_head: usize,
}

impl<'a> BasicByteSearch<'a> {
    pub fn new(input: &'a [u8], search_bytes: &'a [u8]) -> (r: Self)
        ensures
            r.hay() == input@,
            r.pats() == search_bytes@,
            r.emitted() == 0,
            r.wf(),
    {
        let r = Self { input, current_head: 0, search_bytes };
        proof {
            assert(input@.take(0) =~= Seq::<u8>::empty());
        }
        r
    }

}

impl<'a> ByteSearch for BasicByteSearch<'a> {
    closed spec fn hay(&self) -> Seq<u8> {
        self.input@
    }

    closed spec fn pats(&self) -> Seq<u8> {
        self.search_bytes@
    }

    closed spec fn emitted(&self) -> int {
        match_seq(self.hay().take(self.current_head as int), self.pats()).len() as int
    }

    closed spec fn wf(&self) -> bool {
        self.current_head <= self.input@.len()
    }

    #[verifier::loop_isolation(false)]
    fn next(&mut self) -> (r: Option<BytePosition>) {
        let ghost hay = self.input@;
        let ghost pats = self.search_bytes@;
        let ghost all = match_seq(hay, pats);
        let ghost h0 = self.current_head as int;
        let ghost c = match_seq(hay.take(h0), pats).len() as int;
        let mut i: usize = self.current_head;
        while i < self.input.len()
            invariant
                h0 <= i as int <= hay.len(),
                hay == self.input@,
                pats == self.search_bytes@,
                h0 == self.current_head as int,
                forall|j: int| h0 <= j < i as int ==> !is_needle(pats, #[trigger] hay[j]),
            decreases hay.len() - i,
        {
            let b = self.input[i];
            if slice_contains(self.search_bytes, b) {
                let position = BytePosition { index: i, value: b };
                self.current_head = i + 1;
                proof {
                    lemma_match_seq_skip_clean(hay, pats, h0, i as int);
                    lemma_match_seq_take_step(hay, pats, i as int);
                    lemma_match_seq_prefix(hay, pats, i as int + 1);
                    assert(match_seq(hay.take(i as int + 1), pats) == match_seq(
                        hay.take(h0),
                        pats,
                    ).push(position));
                    assert(match_seq(hay.take(i as int + 1), pats) == all.take(c + 1));
                    assert(all.take(c + 1)[c] == position);
                    assert(all[c] == position);
                }
                return Some(position);
            }
            i += 1;
        }
        self.current_head = self.input.len();
        proof {
            lemma_match_seq_skip_clean(hay, pats, h0, hay.len() as int);
            assert(hay.take(hay.len() as int) =~= hay);
        }
        None
    }
}

} // verus!
