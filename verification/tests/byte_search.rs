use atom_syndication_format::utils::byte_search::avx2_search::Avx2ByteSearchIter;
use atom_syndication_format::utils::byte_search::avx512_search::Avx512ByteSearchIter;
use atom_syndication_format::utils::byte_search::swar_search::SwarByteSearchIter;
use atom_syndication_format::utils::byte_search::BasicByteSearch;
use atom_syndication_format::utils::byte_search::ByteSearch;
use atom_syndication_format::utils::byte_search::BytePosition;

fn drain<S: ByteSearch>(mut searcher: S) -> Vec<(usize, u8)> {
    let mut out = Vec::new();
    while let Some(BytePosition { index, value }) = searcher.next() {
        out.push((index, value));
    }
    out
}

fn input_of_len(n: usize) -> Vec<u8> {
    let mut v = Vec::with_capacity(n);
    for i in 0..n {
        let b = match i % 7 {
            0 => b'<',
            1 => b'a',
            2 => b'&',
            3 => b'"',
            4 => b'z',
            5 => b'>',
            _ => b'\'',
        };
        v.push(b);
    }
    v
}

#[test]
fn search_tiers_agree() {
    let needles: &[u8] = &[b'<', b'>', b'&', b'\'', b'"'];
    for n in [0usize, 1, 7, 8, 31, 32, 63, 64, 65, 1000, 1025] {
        let hay = input_of_len(n);
        let basic = drain(BasicByteSearch::new(&hay, needles));
        let swar = drain(SwarByteSearchIter::new(&hay, needles));
        let wide2 = drain(Avx2ByteSearchIter::new(&hay, needles));
        let wide1 = drain(Avx512ByteSearchIter::new(&hay, needles));
        assert_eq!(basic, swar);
        assert_eq!(basic, wide2);
        assert_eq!(basic, wide1);
    }
}

#[test]
fn search_finds_expected_positions() {
    let hay = b"ab<cd>e&f";
    let needles: &[u8] = &[b'<', b'>', b'&'];
    let got = drain(SwarByteSearchIter::new(hay, needles));
    assert_eq!(got, vec![(2, b'<'), (5, b'>'), (7, b'&')]);
}

#[test]
fn search_empty_haystack() {
    let needles: &[u8] = &[b'<'];
    let got = drain(BasicByteSearch::new(b"", needles));
    assert!(got.is_empty());
    let got = drain(Avx512ByteSearchIter::new(b"", needles));
    assert!(got.is_empty());
}

#[test]
fn search_ascending_order() {
    let hay = input_of_len(200);
    let needles: &[u8] = &[b'<', b'>'];
    let got = drain(Avx2ByteSearchIter::new(&hay, needles));
    for w in got.windows(2) {
        assert!(w[0].0 < w[1].0);
    }
    for (i, b) in got.iter() {
        assert_eq!(hay[*i], *b);
        assert!(needles.contains(b));
    }
}
