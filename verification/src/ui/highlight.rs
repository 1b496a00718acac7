//! Where a filter matches a text shown in a list: the text cut into pieces, the
//! matches among them marked, so that the screen can draw them in another color.
use vstd::prelude::*;
use crate::text::{spec_to_lowercase, to_lowercase};
use vstd::string::StringSliceAdditionalSpecFns;

verus! {

/// A piece of a text: the bytes `start..end`, and whether it is a match of the filter.
#[derive(Clone, Copy, Debug, PartialEq, Eq)]
pub struct Segment {
    pub start: usize,
    pub end: usize,
    pub highlighted: bool,
}

pub open spec fn segment_view(s: Segment) -> (int, int, bool) {
    (s.start as int, s.end as int, s.highlighted)
}

pub open spec fn segments_view(s: Seq<Segment>) -> Seq<(int, int, bool)> {
    s.map_values(|x: Segment| segment_view(x))
}

/// The starts of the matches of `p` in `h` at `from` or after, found left to right,
/// each after the end of the one before, as `str::match_indices` finds them.
pub open spec fn spec_matches(h: Seq<u8>, p: Seq<u8>, from: int) -> Seq<int>
    decreases h.len() - from,
{
    if p.len() == 0 || from < 0 || from + p.len() > h.len() {
        seq![]
    } else if h.subrange(from, from + p.len()) == p {
        seq![from] + spec_matches(h, p, from + p.len())
    } else {
        spec_matches(h, p, from + 1)
    }
}

/// Where the last of the matches ends (0 when there is none).
pub open spec fn matches_end(ms: Seq<int>, plen: int) -> int {
    if ms.len() == 0 {
        0
    } else {
        ms.last() + plen
    }
}

/// The pieces up to the end of the last match: before each match the text since the
/// one before it (where there is any), then the match.
pub open spec fn pieces(ms: Seq<int>, plen: int) -> Seq<(int, int, bool)>
    decreases ms.len(),
{
    if ms.len() == 0 {
        seq![]
    } else {
        let prev = ms.drop_last();
        let le = matches_end(prev, plen);
        let s = ms.last();
        pieces(prev, plen) + (if s > le {
            seq![(le, s, false)]
        } else {
            seq![]
        }) + seq![(s, s + plen, true)]
    }
}

/// The pieces of a text of `text_len` bytes whose lowercase bytes are `lower`, for the
/// filter `filter`: the whole text when the filter is empty; else the pieces up to the
/// last match, then the rest of the text; the whole text when that leaves nothing.
pub open spec fn spec_highlight(text_len: int, lower: Seq<u8>, filter: Seq<u8>) -> Seq<(int, int, bool)> {
    if filter.len() == 0 {
        seq![(0, text_len, false)]
    } else {
        let ms = spec_matches(lower, filter, 0);
        let last = matches_end(ms, filter.len() as int);
        let ps = pieces(ms, filter.len() as int) + if last < text_len {
            seq![(last, text_len, false)]
        } else {
            seq![]
        };
        if ps.len() == 0 {
            seq![(0, text_len, false)]
        } else {
            ps
        }
    }
}

/// No match of `p` in `h` starts at `a` or after and before `b`.
#[verifier::opaque]
pub open spec fn no_match_in(h: Seq<u8>, p: Seq<u8>, a: int, b: int) -> bool {
    forall|j: int| a <= j < b && j + p.len() <= h.len() ==> #[trigger] h.subrange(j, j + p.len()) != p
}

/// What the left-to-right search finds from `from` on: matches inside the bytes, each
/// after the end of the one before, and no match anywhere between them.
proof fn lemma_matches_facts(h: Seq<u8>, p: Seq<u8>, from: int)
    requires
        p.len() > 0,
        from >= 0,
    ensures
        ({
            let ms = spec_matches(h, p, from);
            &&& forall|k: int|
                0 <= k < ms.len() ==> from <= #[trigger] ms[k] && ms[k] + p.len() <= h.len()
                    && h.subrange(ms[k], ms[k] + p.len()) == p
            &&& forall|k: int| 0 <= k < ms.len() - 1 ==> #[trigger] ms[k] + p.len() <= ms[k + 1]
            &&& no_match_in(h, p, from, if ms.len() > 0 { ms[0] } else { h.len() as int })
            &&& forall|k: int|
                0 <= k < ms.len() ==> no_match_in(
                    h,
                    p,
                    #[trigger] ms[k] + p.len(),
                    if k + 1 < ms.len() { ms[k + 1] } else { h.len() as int },
                )
        }),
    decreases h.len() - from,
{
    reveal(no_match_in);
    let ms = spec_matches(h, p, from);
    if from + p.len() > h.len() {
        assert(ms.len() == 0);
    } else if h.subrange(from, from + p.len()) == p {
        let rest = spec_matches(h, p, from + p.len());
        lemma_matches_facts(h, p, from + p.len());
        assert(ms == seq![from] + rest);
        assert forall|k: int| 0 <= k < ms.len() - 1 implies #[trigger] ms[k] + p.len() <= ms[k + 1] by {
            if k > 0 {
                assert(ms[k] == rest[k - 1]);
                assert(ms[k + 1] == rest[k]);
            }
        }
        assert forall|k: int|
            0 <= k < ms.len() implies no_match_in(
                h,
                p,
                #[trigger] ms[k] + p.len(),
                if k + 1 < ms.len() { ms[k + 1] } else { h.len() as int },
            ) by {
            if k > 0 {
                assert(ms[k] == rest[k - 1]);
                if k + 1 < ms.len() {
                    assert(ms[k + 1] == rest[k]);
                }
            } else if rest.len() > 0 {
                assert(ms[1] == rest[0]);
            }
        }
    } else {
        lemma_matches_facts(h, p, from + 1);
        assert(ms == spec_matches(h, p, from + 1));
    }
}

/// A piece in order, marked only where it is a match, and with no match starting in it
/// where it is not marked.
pub open spec fn piece_ok(h: Seq<u8>, p: Seq<u8>, x: (int, int, bool)) -> bool {
    &&& x.0 <= x.1
    &&& x.2 ==> x.1 <= h.len() && 0 <= x.0 && h.subrange(x.0, x.1) == p
    &&& !x.2 ==> no_match_in(h, p, x.0, x.1)
}

/// Every piece is in order and marked rightly, and each begins where the one before ends.
pub open spec fn pieces_ok(h: Seq<u8>, p: Seq<u8>, ps: Seq<(int, int, bool)>) -> bool {
    &&& forall|i: int| 0 <= i < ps.len() ==> piece_ok(h, p, #[trigger] ps[i])
    &&& forall|i: int| 0 <= i < ps.len() - 1 ==> (#[trigger] ps[i]).1 == ps[i + 1].0
}

proof fn lemma_push_piece(h: Seq<u8>, p: Seq<u8>, ps: Seq<(int, int, bool)>, x: (int, int, bool))
    requires
        pieces_ok(h, p, ps),
        ps.len() > 0 ==> ps.last().1 == x.0,
        piece_ok(h, p, x),
    ensures
        pieces_ok(h, p, ps.push(x)),
{
    let q = ps.push(x);
    assert forall|i: int| 0 <= i < q.len() implies piece_ok(h, p, #[trigger] q[i]) by {
        if i < ps.len() {
            assert(q[i] == ps[i]);
        }
    }
    assert forall|i: int| 0 <= i < q.len() - 1 implies (#[trigger] q[i]).1 == q[i + 1].0 by {
        assert(q[i] == ps[i]);
        if i + 1 < ps.len() {
            assert(q[i + 1] == ps[i + 1]);
        }
    }
}

/// The pieces up to the last match cover `0..` the end of that match without a gap;
/// each marked piece is a match, and no match starts in an unmarked one.
proof fn lemma_pieces_facts(h: Seq<u8>, p: Seq<u8>, ms: Seq<int>)
    requires
        p.len() > 0,
        forall|k: int|
            0 <= k < ms.len() ==> 0 <= #[trigger] ms[k] && ms[k] + p.len() <= h.len() && h.subrange(
                ms[k],
                ms[k] + p.len(),
            ) == p,
        forall|k: int| 0 <= k < ms.len() - 1 ==> #[trigger] ms[k] + p.len() <= ms[k + 1],
        ms.len() > 0 ==> no_match_in(h, p, 0, ms[0]),
        forall|k: int| 0 <= k < ms.len() - 1 ==> no_match_in(h, p, #[trigger] ms[k] + p.len(), ms[k + 1]),
    ensures
        ({
            let ps = pieces(ms, p.len() as int);
            &&& ms.len() == 0 ==> ps.len() == 0
            &&& ms.len() > 0 ==> ps.len() > 0 && ps[0].0 == 0 && ps.last().1 == matches_end(ms, p.len() as int)
            &&& pieces_ok(h, p, ps)
        }),
    decreases ms.len(),
{
    if ms.len() > 0 {
        let plen = p.len() as int;
        let prev = ms.drop_last();
        assert forall|k: int| 0 <= k < prev.len() - 1 implies no_match_in(
            h,
            p,
            #[trigger] prev[k] + p.len(),
            prev[k + 1],
        ) by {
            assert(prev[k] == ms[k]);
            assert(prev[k + 1] == ms[k + 1]);
        }
        assert forall|k: int| 0 <= k < prev.len() - 1 implies #[trigger] prev[k] + p.len() <= prev[k + 1] by {
            assert(prev[k] == ms[k]);
            assert(prev[k + 1] == ms[k + 1]);
        }
        assert forall|k: int| 0 <= k < prev.len() implies 0 <= #[trigger] prev[k] && prev[k] + p.len()
            <= h.len() && h.subrange(prev[k], prev[k] + p.len()) == p by {
            assert(prev[k] == ms[k]);
        }
        if prev.len() > 0 {
            assert(prev[0] == ms[0]);
        }
        lemma_pieces_facts(h, p, prev);
        let pp = pieces(prev, plen);
        let le = matches_end(prev, plen);
        let s = ms.last();
        assert(ms[ms.len() - 1] == s);
        if prev.len() > 0 {
            assert(ms[ms.len() - 2] == prev.last());
            assert(le <= s);
            assert(no_match_in(h, p, le, s));
        } else {
            assert(le == 0);
            assert(no_match_in(h, p, 0, s));
        }
        let m = (s, s + plen, true);
        assert(piece_ok(h, p, m));
        if s > le {
            let g = (le, s, false);
            assert(piece_ok(h, p, g));
            lemma_push_piece(h, p, pp, g);
            lemma_push_piece(h, p, pp.push(g), m);
            assert(pieces(ms, plen) =~= pp.push(g).push(m));
        } else {
            lemma_push_piece(h, p, pp, m);
            assert(pieces(ms, plen) =~= pp.push(m));
        }
    }
}

/// Where lowercasing keeps the text's length in bytes and the filter is not empty, the
/// pieces cover the whole text in order without a gap or an overlap; each marked piece
/// is the filter, and no match of the filter starts in an unmarked piece.
pub proof fn lemma_highlight_covers_text(text_len: int, lower: Seq<u8>, filter: Seq<u8>)
    requires
        filter.len() > 0,
        lower.len() == text_len,
    ensures
        ({
            let segs = spec_highlight(text_len, lower, filter);
            &&& segs.len() > 0
            &&& segs[0].0 == 0
            &&& segs.last().1 == text_len
            &&& forall|i: int| 0 <= i < segs.len() - 1 ==> (#[trigger] segs[i]).1 == segs[i + 1].0
            &&& forall|i: int| 0 <= i < segs.len() ==> (#[trigger] segs[i]).0 <= segs[i].1
            &&& forall|i: int|
                0 <= i < segs.len() && (#[trigger] segs[i]).2 ==> lower.subrange(segs[i].0, segs[i].1)
                    == filter
            &&& forall|i: int|
                0 <= i < segs.len() && !(#[trigger] segs[i]).2 ==> no_match_in(
                    lower,
                    filter,
                    segs[i].0,
                    segs[i].1,
                )
        }),
{
    let plen = filter.len() as int;
    let ms = spec_matches(lower, filter, 0);
    lemma_matches_facts(lower, filter, 0);
    assert forall|k: int| 0 <= k < ms.len() - 1 implies no_match_in(
        lower,
        filter,
        #[trigger] ms[k] + filter.len(),
        ms[k + 1],
    ) by {
        assert(no_match_in(
            lower,
            filter,
            ms[k] + filter.len(),
            if k + 1 < ms.len() { ms[k + 1] } else { lower.len() as int },
        ));
    }
    lemma_pieces_facts(lower, filter, ms);
    let pp = pieces(ms, plen);
    let last = matches_end(ms, plen);
    if ms.len() > 0 {
        assert(ms[ms.len() - 1] == ms.last());
        assert(no_match_in(lower, filter, ms[ms.len() - 1] + filter.len(), lower.len() as int));
    }
    assert(no_match_in(lower, filter, last, text_len));
    let segs = spec_highlight(text_len, lower, filter);
    if last < text_len {
        let t = (last, text_len, false);
        assert(piece_ok(lower, filter, t));
        lemma_push_piece(lower, filter, pp, t);
        assert(segs =~= pp.push(t));
    } else if pp.len() == 0 {
        assert(text_len == 0);
        let t = (0int, text_len, false);
        assert(no_match_in(lower, filter, 0, 0)) by {
            reveal(no_match_in);
        }
        assert(piece_ok(lower, filter, t));
        lemma_push_piece(lower, filter, pp, t);
        assert(segs =~= pp.push(t));
    } else {
        assert(segs =~= pp);
    }
    assert forall|i: int| 0 <= i < segs.len() implies (#[trigger] segs[i]).0 <= segs[i].1 && (segs[i].2
        ==> lower.subrange(segs[i].0, segs[i].1) == filter) && (!segs[i].2 ==> no_match_in(
        lower,
        filter,
        segs[i].0,
        segs[i].1,
    )) by {
        assert(piece_ok(lower, filter, segs[i]));
    }
}

/// Whether `p` stands in `h` at `i`.
fn match_at(h: &[u8], p: &[u8], i: usize) -> (r: bool)
    requires
        i + p@.len() <= h@.len(),
    ensures
        r == (h@.subrange(i as int, i + p@.len()) == p@),
{
    let hl = h.len();
    let mut k: usize = 0;
    while k < p.len()
        invariant
            hl == h@.len(),
            k <= p@.len(),
            i + p@.len() <= h@.len(),
            forall|j: int| 0 <= j < k ==> h@[i + j] == p@[j],
        decreases p@.len() - k,
    {
        if h[i + k] != p[k] {
            assert(h@.subrange(i as int, i + p@.len())[k as int] != p@[k as int]);
            return false;
        }
        k = k + 1;
    }
    assert(h@.subrange(i as int, i + p@.len()) =~= p@);
    true
}

/// The pieces of a text of `text_len` bytes whose lowercase form has the bytes `lower`,
/// cut where `filter` matches `lower`.
pub fn highlight_ranges(text_len: usize, lower: &[u8], filter: &[u8]) -> (r: Vec<Segment>)
    ensures
        segments_view(r@) == spec_highlight(text_len as int, lower@, filter@),
{
    let mut out: Vec<Segment> = Vec::new();
    if filter.len() == 0 {
        out.push(Segment { start: 0, end: text_len, highlighted: false });
        assert(segments_view(out@) =~= seq![(0, text_len as int, false)]);
        return out;
    }
    let plen = filter.len();
    let ghost mut found: Seq<int> = seq![];
    let mut last_end: usize = 0;
    let mut i: usize = 0;
    while plen <= lower.len() - i
        invariant
            plen == filter@.len(),
            plen > 0,
            i <= lower@.len(),
            last_end <= i,
            spec_matches(lower@, filter@, 0) == found + spec_matches(lower@, filter@, i as int),
            segments_view(out@) == pieces(found, plen as int),
            last_end == matches_end(found, plen as int),
        decreases lower@.len() - i,
    {
        if match_at(lower, filter, i) {
            let ghost before = segments_view(out@);
            if i > last_end {
                out.push(Segment { start: last_end, end: i, highlighted: false });
            }
            out.push(Segment { start: i, end: i + plen, highlighted: true });
            proof {
                let nf = found.push(i as int);
                assert(nf.drop_last() =~= found);
                assert(nf.last() == i as int);
                assert(segments_view(out@) =~= pieces(nf, plen as int));
                assert(spec_matches(lower@, filter@, i as int) == seq![i as int] + spec_matches(
                    lower@,
                    filter@,
                    i + plen,
                ));
                assert(found + spec_matches(lower@, filter@, i as int) =~= nf + spec_matches(
                    lower@,
                    filter@,
                    i + plen,
                ));
                found = nf;
            }
            last_end = i + plen;
            i = i + plen;
        } else {
            assert(spec_matches(lower@, filter@, i as int) == spec_matches(lower@, filter@, i + 1));
            i = i + 1;
        }
    }
    assert(spec_matches(lower@, filter@, i as int) =~= Seq::<int>::empty());
    assert(found + Seq::<int>::empty() =~= found);
    let ghost ps = pieces(found, plen as int);
    if last_end < text_len {
        out.push(Segment { start: last_end, end: text_len, highlighted: false });
        assert(segments_view(out@) =~= ps + seq![(last_end as int, text_len as int, false)]);
    } else {
        assert(segments_view(out@) =~= ps + Seq::<(int, int, bool)>::empty());
    }
    if out.len() == 0 {
        out.push(Segment { start: 0, end: text_len, highlighted: false });
        assert(segments_view(out@) =~= seq![(0, text_len as int, false)]);
    }
    out
}

/// Cuts `text` where the lowercase filter matches its lowercase form (compared byte by
/// byte, as `str::match_indices` does); the offsets are those of the lowercase form.
pub fn highlight_filter_spans(text: &str, filter_lower: &str) -> (r: Vec<Segment>)
    ensures
        segments_view(r@) == spec_highlight(
            text.spec_bytes().len() as int,
            vstd::utf8::encode_utf8(spec_to_lowercase(text@)),
            filter_lower.spec_bytes(),
        ),
{
    let lower = to_lowercase(text);
    let ls = lower.as_str();
    let lb = ls.as_bytes();
    let fb = filter_lower.as_bytes();
    assert(lb@ == vstd::utf8::encode_utf8(spec_to_lowercase(text@)));
    let tb = text.as_bytes();
    let n = tb.len();
    highlight_ranges(n, lb, fb)
}

} // verus!
