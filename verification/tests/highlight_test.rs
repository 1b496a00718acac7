use alkeme::ui::highlight::{highlight_filter_spans, highlight_ranges, Segment};

fn seg(start: usize, end: usize, highlighted: bool) -> Segment {
    Segment { start, end, highlighted }
}

#[test]
fn matches_are_marked_ignoring_case() {
    let r = highlight_filter_spans("Hello World hello", "hello");
    assert_eq!(r, vec![seg(0, 5, true), seg(5, 12, false), seg(12, 17, true)]);
}

#[test]
fn empty_filter_keeps_whole_text() {
    assert_eq!(highlight_filter_spans("abc", ""), vec![seg(0, 3, false)]);
}

#[test]
fn no_match_keeps_whole_text() {
    assert_eq!(highlight_filter_spans("abc", "x"), vec![seg(0, 3, false)]);
}

#[test]
fn matches_do_not_overlap() {
    assert_eq!(highlight_filter_spans("aaa", "aa"), vec![seg(0, 2, true), seg(2, 3, false)]);
}

#[test]
fn empty_text_gives_one_empty_piece() {
    assert_eq!(highlight_filter_spans("", "a"), vec![seg(0, 0, false)]);
}

#[test]
fn pieces_cover_the_text() {
    let text = "src 10.0.0.1 dst 10.0.0.2";
    let r = highlight_filter_spans(text, "10.0");
    assert_eq!(r.first().unwrap().start, 0);
    assert_eq!(r.last().unwrap().end, text.len());
    for w in r.windows(2) {
        assert_eq!(w[0].end, w[1].start);
    }
    let joined: String = r.iter().map(|s| &text[s.start..s.end]).collect();
    assert_eq!(joined, text);
    for s in r.iter().filter(|s| s.highlighted) {
        assert_eq!(&text[s.start..s.end], "10.0");
    }
}

#[test]
fn ranges_follow_the_lowercase_bytes() {
    assert_eq!(highlight_ranges(4, b"xabx", b"ab"), vec![seg(0, 1, false), seg(1, 3, true), seg(3, 4, false)]);
    assert_eq!(highlight_ranges(2, b"ab", b"ab"), vec![seg(0, 2, true)]);
}
