//! The links popup of the Cont3xt search: the links listed group by group, each group
//! under a header and after a blank line, scrolled to keep the selected link in view.
use vstd::prelude::*;
use crate::text::{str_to_string, string_eq};
use crate::ui::format::{number_text, spec_digits};
use crate::ui::json_lines::append_str;
use crate::ui::layout::{center_popup, spec_center_popup, Area};

verus! {

/// A line of the links list: a blank line between groups, the header of the group
/// whose first link is the given one, or a link.
#[derive(Clone, Copy, PartialEq, Eq, Structural, Debug)]
pub enum LinkLine {
    Spacer,
    Header(usize),
    Item(usize),
}

/// The lines that come before link `j`: where its group differs from that of the link
/// before (none before the first), a blank line when that group was named, then the
/// header.
pub open spec fn lines_before(groups: Seq<Seq<char>>, j: int) -> Seq<LinkLine> {
    let last: Seq<char> = if j == 0 { Seq::empty() } else { groups[j - 1] };
    if groups[j] != last {
        (if last.len() > 0 { seq![LinkLine::Spacer] } else { seq![] }) + seq![LinkLine::Header(j as usize)]
    } else {
        seq![]
    }
}

/// Every line of the list for the links whose groups are `groups`, in order.
pub open spec fn link_lines(groups: Seq<Seq<char>>) -> Seq<LinkLine>
    decreases groups.len(),
{
    if groups.len() == 0 {
        seq![]
    } else {
        let j = groups.len() - 1;
        link_lines(groups.drop_last()) + lines_before(groups, j) + seq![LinkLine::Item(j as usize)]
    }
}

/// The line of the selected link; past the end when no link is selected.
pub open spec fn selected_line(groups: Seq<Seq<char>>, selected: int) -> int {
    if 0 <= selected < groups.len() {
        (link_lines(groups.take(selected)).len() + lines_before(groups, selected).len()) as int
    } else {
        link_lines(groups).len() as int
    }
}

/// The first line shown, so that the selected link's line is the last one shown once it
/// is below the first screenful.
pub open spec fn link_scroll(groups: Seq<Seq<char>>, selected: int, visible: int) -> int {
    let pos = selected_line(groups, selected);
    if pos >= visible { pos - visible + 1 } else { 0 }
}

/// The lines shown: from the scroll position on, as many as fit.
pub open spec fn spec_link_rows(groups: Seq<Seq<char>>, selected: int, visible: int) -> (int, Seq<LinkLine>) {
    let all = link_lines(groups);
    let s = link_scroll(groups, selected, visible);
    let e = if s + visible <= all.len() { s + visible } else { all.len() as int };
    (s, if s <= e { all.subrange(s, e) } else { seq![] })
}

proof fn lemma_link_lines_len(groups: Seq<Seq<char>>)
    ensures
        link_lines(groups).len() <= 3 * groups.len(),
    decreases groups.len(),
{
    if groups.len() > 0 {
        lemma_link_lines_len(groups.drop_last());
    }
}

proof fn lemma_link_lines_take(groups: Seq<Seq<char>>, k: int)
    requires
        0 <= k < groups.len(),
    ensures
        link_lines(groups.take(k + 1)) == link_lines(groups.take(k)) + lines_before(groups, k) + seq![LinkLine::Item(k as usize)],
{
    let t = groups.take(k + 1);
    assert(t.drop_last() =~= groups.take(k));
    assert(lines_before(t, k) == lines_before(groups, k)) by {
        if k > 0 {
            assert(t[k - 1] == groups[k - 1]);
        }
        assert(t[k] == groups[k]);
    }
}

fn before_lines(groups: &Vec<String>, j: usize, out: &mut Vec<LinkLine>)
    requires
        j < groups@.len(),
    ensures
        final(out)@ == old(out)@ + lines_before(groups@.map_values(|s: String| s@), j as int),
{
    let ghost gv = groups@.map_values(|s: String| s@);
    let ghost start = out@;
    let differs = if j == 0 { !groups[0].as_str().is_empty() } else { !string_eq(&groups[j], &groups[j - 1]) };
    let last_named = j > 0 && !groups[j - 1].as_str().is_empty();
    assert(gv[j as int] == groups@[j as int]@);
    if j > 0 {
        assert(gv[j - 1] == groups@[j - 1]@);
    } else {
        assert(gv[0].len() == 0 ==> gv[0] =~= Seq::<char>::empty());
    }
    if differs {
        if last_named {
            out.push(LinkLine::Spacer);
        }
        out.push(LinkLine::Header(j));
    }
    assert(out@ =~= start + lines_before(gv, j as int));
}

/// How far the links list scrolls and the lines it shows in `visible` rows, for links
/// whose groups are `groups` (one per link, in list order) with link `selected` chosen.
pub fn link_popup_rows(groups: &Vec<String>, selected: usize, visible: usize) -> (r: (usize, Vec<LinkLine>))
    requires
        3 * groups@.len() < usize::MAX,
    ensures
        (r.0 as int, r.1@) == spec_link_rows(groups@.map_values(|s: String| s@), selected as int, visible as int),
{
    let ghost gv = groups@.map_values(|s: String| s@);
    let mut all: Vec<LinkLine> = Vec::new();
    let mut pos: usize = 0;
    let mut found = false;
    let mut j: usize = 0;
    while j < groups.len()
        invariant
            j <= groups@.len(),
            gv == groups@.map_values(|s: String| s@),
            3 * groups@.len() < usize::MAX,
            all@ == link_lines(gv.take(j as int)),
            all@.len() <= 3 * j,
            found == (selected < j),
            found ==> pos == selected_line(gv, selected as int),
            found ==> pos <= all@.len(),
        decreases groups.len() - j,
    {
        proof {
            lemma_link_lines_take(gv, j as int);
        }
        before_lines(groups, j, &mut all);
        if j == selected {
            pos = all.len();
            found = true;
            assert(gv.take(j as int) == gv.take(selected as int));
        }
        all.push(LinkLine::Item(j));
        j = j + 1;
    }
    assert(gv.take(groups@.len() as int) =~= gv);
    if !found {
        pos = all.len();
    }
    let scroll: usize = if pos >= visible { pos - visible + 1 } else { 0 };
    let n = all.len();
    let end: usize = if scroll <= n && visible <= n - scroll { scroll + visible } else { n };
    let mut rows: Vec<LinkLine> = Vec::new();
    let start: usize = if scroll <= n { scroll } else { n };
    let mut k: usize = start;
    while k < end
        invariant
            end <= n,
            n == all@.len(),
            start <= k <= end || (end <= start && k == start),
            start <= n,
            rows@ == all@.subrange(start as int, k as int),
        decreases end - k,
    {
        rows.push(all[k]);
        assert(rows@ =~= all@.subrange(start as int, k + 1));
        k = k + 1;
    }
    proof {
        if end <= start {
            assert(rows@ =~= Seq::<LinkLine>::empty());
        }
    }
    (scroll, rows)
}

pub open spec fn spec_link_popup_title(indicator: Seq<char>, itype: Seq<char>, count: nat) -> Seq<char> {
    " Links for "@ + indicator + " ("@ + itype + ") — "@ + spec_digits(count) + " links "@
}

/// The title of the links popup: the indicator, its type and how many links it has.
pub fn link_popup_title(indicator: &str, itype: &str, count: usize) -> (s: String)
    ensures
        s@ == spec_link_popup_title(indicator@, itype@, count as nat),
{
    let mut s = str_to_string(" Links for ");
    append_str(&mut s, indicator);
    append_str(&mut s, " (");
    append_str(&mut s, itype);
    append_str(&mut s, ") — ");
    let d = number_text(count as u64);
    append_str(&mut s, d.as_str());
    append_str(&mut s, " links ");
    s
}

/// The rows left for the list: the popup (70 by 30 at most, 4 fewer than the screen)
/// inside its border, less a line for the filter when it shows and three for the
/// selected link's description when it has one.
pub open spec fn spec_link_list_height(area: Area, filter_shown: bool, has_desc: bool) -> int {
    let w: u16 = if area.width >= 4 { if area.width - 4 < 70 { (area.width - 4) as u16 } else { 70 } } else { 0 };
    let h: u16 = if area.height >= 4 { if area.height - 4 < 30 { (area.height - 4) as u16 } else { 30 } } else { 0 };
    let p = spec_center_popup(w, h, area);
    let inner: int = if p.height >= 2 { p.height - 2 } else { 0 };
    let content: int = if filter_shown { if inner >= 1 { inner - 1 } else { 0 } } else { inner };
    if has_desc { if content >= 3 { content - 3 } else { 0 } } else { content }
}

pub fn link_list_height(area: Area, filter_shown: bool, has_desc: bool) -> (r: usize)
    requires
        area.x + area.width <= u16::MAX,
        area.y + area.height <= u16::MAX,
    ensures
        r == spec_link_list_height(area, filter_shown, has_desc),
{
    let w: u16 = if area.width >= 4 { if area.width - 4 < 70 { area.width - 4 } else { 70 } } else { 0 };
    let h: u16 = if area.height >= 4 { if area.height - 4 < 30 { area.height - 4 } else { 30 } } else { 0 };
    let p = center_popup(w, h, area);
    let inner: u16 = if p.height >= 2 { p.height - 2 } else { 0 };
    let content: u16 = if filter_shown { if inner >= 1 { inner - 1 } else { 0 } } else { inner };
    let list: u16 = if has_desc { if content >= 3 { content - 3 } else { 0 } } else { content };
    list as usize
}

} // verus!
