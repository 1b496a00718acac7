//! The saved-views popup of the sessions list: its place, its title, and its lines in
//! each of its modes.
use vstd::prelude::*;
use crate::app::types::ViewPopupMode;
use crate::text::{str_to_string, string_eq};
use crate::ui::json_lines::append_str;
use crate::ui::layout::Area;
use vstd::string::StringSliceAdditionalSpecFns;

verus! {

/// A saved view as the popup lists it.
pub struct SavedViewInfo {
    pub id: String,
    pub name: String,
    pub expression: String,
    pub shared: bool,
}

/// A line of the popup: plain text, one of the two fixed choices (selected or not), or
/// a saved view. For a view, `expr` says how much of its expression follows the name:
/// nothing, its first bytes followed by `..`, or all of it.
pub enum ViewLine {
    Text(String),
    Choice(String, bool),
    View { index: usize, selected: bool, active: bool, expr: Option<(usize, bool)> },
}

pub enum ViewLineView {
    Text(Seq<char>),
    Choice(Seq<char>, bool),
    View { index: int, selected: bool, active: bool, expr: Option<(int, bool)> },
}

pub open spec fn view_line_view(l: ViewLine) -> ViewLineView {
    match l {
        ViewLine::Text(s) => ViewLineView::Text(s@),
        ViewLine::Choice(s, b) => ViewLineView::Choice(s@, b),
        ViewLine::View { index, selected, active, expr } => ViewLineView::View {
            index: index as int,
            selected,
            active,
            expr: match expr {
                Some(p) => Some((p.0 as int, p.1)),
                None => None,
            },
        },
    }
}

pub open spec fn view_lines_view(v: Seq<ViewLine>) -> Seq<ViewLineView> {
    v.map_values(|l: ViewLine| view_line_view(l))
}

/// The popup's place: 60 columns (4 fewer than the screen at most), a row per listed
/// view plus 8 (2 fewer than the screen at most, 8 at least), centred.
pub open spec fn spec_view_popup_area(shown: int, area: Area) -> Area {
    let h0: int = if shown + 8 <= area.height - 2 { shown + 8 } else { area.height - 2 };
    let h: int = if h0 >= 8 { h0 } else { 8 };
    let w: int = if 60 <= area.width - 4 { 60 } else { area.width - 4 };
    Area {
        x: ((if area.width >= w { area.width - w } else { 0 }) / 2) as u16,
        y: ((if area.height >= h { area.height - h } else { 0 }) / 2) as u16,
        width: w as u16,
        height: h as u16,
    }
}

pub open spec fn spec_view_popup_title(mode: ViewPopupMode) -> Seq<char> {
    match mode {
        ViewPopupMode::SaveInput => " Save View "@,
        ViewPopupMode::ConfirmDelete => " Confirm Delete "@,
        _ => " Views "@,
    }
}

/// How much of a view's expression is shown after its name: the room left in `width`
/// columns after the name, four columns and the active marker; nothing when that is 5 or
/// less, else all of it when it fits, or its first bytes and `..`.
pub open spec fn spec_expr_shown(width: int, name_len: int, marker_len: int, expr_len: int) -> Option<(int, bool)> {
    let remaining = width - name_len - 4 - marker_len;
    if remaining > 5 {
        if expr_len > remaining { Some((remaining - 3, true)) } else { Some((expr_len, false)) }
    } else {
        None
    }
}

pub open spec fn marker_len(active: bool) -> int {
    if active { 4 } else { 0 }
}

/// Whether the view is the active one.
pub open spec fn is_active(v: SavedViewInfo, active_id: Option<Seq<char>>) -> bool {
    active_id == Some(v.id@)
}

/// The rows of the listed views: the views `filtered` (indices into `views`), the
/// selected row counting from the two fixed choices.
pub open spec fn spec_view_rows(
    views: Seq<SavedViewInfo>,
    filtered: Seq<usize>,
    selected: int,
    active_id: Option<Seq<char>>,
    width: int,
) -> Seq<ViewLineView> {
    Seq::new(filtered.len(), |k: int| {
        let v = views[filtered[k] as int];
        ViewLineView::View {
            index: filtered[k] as int,
            selected: selected == k + 2,
            active: is_active(v, active_id),
            expr: spec_expr_shown(
                width,
                vstd::utf8::encode_utf8(v.name@).len() as int,
                marker_len(is_active(v, active_id)),
                vstd::utf8::encode_utf8(v.expression@).len() as int,
            ),
        }
    })
}

/// The lines of the list mode: the two fixed choices, a rule as wide as the popup's
/// inside, the filter while it is on, the views, a note when none is listed, and the
/// key help.
pub open spec fn spec_view_list_lines(
    views: Seq<SavedViewInfo>,
    filtered: Seq<usize>,
    selected: int,
    active_id: Option<Seq<char>>,
    filter_active: bool,
    filter: Seq<char>,
    width: int,
) -> Seq<ViewLineView> {
    seq![
        ViewLineView::Choice("[+] Save Current Expression as View"@, selected == 0),
        ViewLineView::Choice(
            if active_id is Some { "✖ Clear Active View"@ } else { "✖ No View Active"@ },
            selected == 1,
        ),
        ViewLineView::Text(Seq::new(width as nat, |i: int| '─')),
    ] + (if filter_active { seq![ViewLineView::Text("/"@ + filter)] } else { seq![] }) + spec_view_rows(
        views,
        filtered,
        selected,
        active_id,
        width,
    ) + (if filtered.len() == 0 && views.len() > 0 {
        seq![ViewLineView::Text("  (no matching views)"@)]
    } else if views.len() == 0 {
        seq![ViewLineView::Text("  (no saved views)"@)]
    } else {
        seq![]
    }) + seq![ViewLineView::Text(""@), ViewLineView::Text("Enter=select  x=delete  /=filter  Esc=close"@)]
}

/// Every row's name and marker fit in the popup, as the list needs.
pub open spec fn rows_fit(views: Seq<SavedViewInfo>, filtered: Seq<usize>, active_id: Option<Seq<char>>, width: int) -> bool {
    forall|k: int|
        0 <= k < filtered.len() ==> (#[trigger] filtered[k]) < views.len() && vstd::utf8::encode_utf8(views[filtered[k] as int].name@).len() + 4
            + marker_len(is_active(views[filtered[k] as int], active_id)) <= width
}

fn id_is(active_id: &Option<String>, id: &String) -> (r: bool)
    ensures
        r == (match active_id { Some(a) => Some(a@), None => None } == Some(id@)),
{
    match active_id {
        Some(a) => string_eq(a, id),
        None => false,
    }
}

fn view_row(v: &SavedViewInfo, index: usize, selected: bool, active_id: &Option<String>, width: usize) -> (r: ViewLine)
    requires
                vstd::utf8::encode_utf8(v.name@).len() + 4 + marker_len(is_active(*v, match active_id { Some(a) => Some(a@), None => None })) <= width,
    ensures
        view_line_view(r) == (ViewLineView::View {
            index: index as int,
            selected,
            active: is_active(*v, match active_id { Some(a) => Some(a@), None => None }),
            expr: spec_expr_shown(
                width as int,
                vstd::utf8::encode_utf8(v.name@).len() as int,
                marker_len(is_active(*v, match active_id { Some(a) => Some(a@), None => None })),
                vstd::utf8::encode_utf8(v.expression@).len() as int,
            ),
        }),
{
    let active = id_is(active_id, &v.id);
    let name_len = v.name.as_str().as_bytes().len();
    let marker: usize = if active { 4 } else { 0 };
    let remaining = width - name_len - 4 - marker;
    let elen = v.expression.as_str().as_bytes().len();
    let expr = if remaining > 5 {
        if elen > remaining { Some((remaining - 3, true)) } else { Some((elen, false)) }
    } else {
        None
    };
    ViewLine::View { index, selected, active, expr }
}

fn push_text(lines: &mut Vec<ViewLine>, s: String)
    ensures
        view_lines_view(final(lines)@) == view_lines_view(old(lines)@).push(ViewLineView::Text(s@)),
{
    let ghost before = view_lines_view(lines@);
    lines.push(ViewLine::Text(s));
    assert(view_lines_view(lines@) =~= before.push(ViewLineView::Text(s@)));
}

fn push_view_rows(
    lines: &mut Vec<ViewLine>,
    views: &Vec<SavedViewInfo>,
    filtered: &Vec<usize>,
    selected: usize,
    active_id: &Option<String>,
    width: u16,
)
    requires
        rows_fit(views@, filtered@, match active_id { Some(a) => Some(a@), None => None }, width as int),
    ensures
        view_lines_view(final(lines)@) == view_lines_view(old(lines)@) + spec_view_rows(
            views@,
            filtered@,
            selected as int,
            match active_id { Some(a) => Some(a@), None => None },
            width as int,
        ),
{
    let ghost aid = match active_id { Some(a) => Some(a@), None => None };
    let ghost before_rows = view_lines_view(lines@);
    let mut k: usize = 0;
    while k < filtered.len()
        invariant
            k <= filtered@.len(),
            aid == match active_id { Some(a) => Some(a@), None => None },
            rows_fit(views@, filtered@, aid, width as int),
            view_lines_view(lines@) == before_rows + spec_view_rows(views@, filtered@.take(k as int), selected as int, aid, width as int),
        decreases filtered.len() - k,
    {
        let ghost prev = view_lines_view(lines@);
        let idx = filtered[k];
        assert(filtered@[k as int] < views@.len());
        let row = view_row(&views[idx], idx, selected >= 2 && selected - 2 == k, active_id, width as usize);
        let ghost rv = view_line_view(row);
        lines.push(row);
        let ghost a = spec_view_rows(views@, filtered@.take(k as int), selected as int, aid, width as int);
        let ghost b = spec_view_rows(views@, filtered@.take(k + 1), selected as int, aid, width as int);
        assert(filtered@.take(k + 1)[k as int] == idx);
        assert(b[k as int] == rv);
        assert forall|j: int| 0 <= j < k implies b[j] == a[j] by {
            assert(filtered@.take(k + 1)[j] == filtered@.take(k as int)[j]);
        }
        assert(b =~= a.push(rv));
        assert(view_lines_view(lines@) =~= prev.push(rv));
        assert(view_lines_view(lines@) =~= before_rows + b);
        k = k + 1;
    }
    assert(filtered@.take(filtered@.len() as int) =~= filtered@);
}

fn view_list_head(selected: usize, has_active: bool, width: u16) -> (r: Vec<ViewLine>)
    ensures
        view_lines_view(r@) == seq![
            ViewLineView::Choice("[+] Save Current Expression as View"@, selected == 0),
            ViewLineView::Choice(if has_active { "✖ Clear Active View"@ } else { "✖ No View Active"@ }, selected == 1),
            ViewLineView::Text(Seq::new(width as nat, |i: int| '─')),
        ],
{
    let mut lines: Vec<ViewLine> = Vec::new();
    lines.push(ViewLine::Choice(str_to_string("[+] Save Current Expression as View"), selected == 0));
    let clear = if has_active { "✖ Clear Active View" } else { "✖ No View Active" };
    lines.push(ViewLine::Choice(str_to_string(clear), selected == 1));
    let mut rule: Vec<char> = Vec::new();
    let mut i: u16 = 0;
    while i < width
        invariant
            i <= width,
            rule@ == Seq::new(i as nat, |k: int| '─'),
        decreases width - i,
    {
        rule.push('─');
        assert(rule@ =~= Seq::new((i + 1) as nat, |k: int| '─'));
        i = i + 1;
    }
    let rs = crate::text::string_from_chars(&rule);
    lines.push(ViewLine::Text(rs));
    assert(view_lines_view(lines@) =~= seq![
        ViewLineView::Choice("[+] Save Current Expression as View"@, selected == 0),
        ViewLineView::Choice(if has_active { "✖ Clear Active View"@ } else { "✖ No View Active"@ }, selected == 1),
        ViewLineView::Text(Seq::new(width as nat, |i: int| '─')),
    ]);
    lines
}

/// The lines of the list mode of the popup, whose inside is `width` columns wide.
pub fn view_list_lines(
    views: &Vec<SavedViewInfo>,
    filtered: &Vec<usize>,
    selected: usize,
    active_id: &Option<String>,
    filter_active: bool,
    filter: &str,
    width: u16,
) -> (r: Vec<ViewLine>)
    requires
        rows_fit(views@, filtered@, match active_id { Some(a) => Some(a@), None => None }, width as int),
    ensures
        view_lines_view(r@) == spec_view_list_lines(
            views@,
            filtered@,
            selected as int,
            match active_id { Some(a) => Some(a@), None => None },
            filter_active,
            filter@,
            width as int,
        ),
{
    let ghost aid = match active_id { Some(a) => Some(a@), None => None };
    let has_active = match active_id { Some(_) => true, None => false };
    let mut lines = view_list_head(selected, has_active, width);
    let ghost head = view_lines_view(lines@);
    if filter_active {
        let mut f = str_to_string("/");
        append_str(&mut f, filter);
        push_text(&mut lines, f);
    }
    let ghost before_rows = view_lines_view(lines@);
    push_view_rows(&mut lines, views, filtered, selected, active_id, width);
    let ghost after_rows = view_lines_view(lines@);
    if filtered.len() == 0 && views.len() > 0 {
        push_text(&mut lines, str_to_string("  (no matching views)"));
    } else if views.len() == 0 {
        push_text(&mut lines, str_to_string("  (no saved views)"));
    }
    let ghost after_note = view_lines_view(lines@);
    push_text(&mut lines, str_to_string(""));
    push_text(&mut lines, str_to_string("Enter=select  x=delete  /=filter  Esc=close"));
    assert(view_lines_view(lines@) =~= spec_view_list_lines(views@, filtered@, selected as int, aid, filter_active, filter@, width as int));
    lines
}

/// Where the popup stands, for `shown` listed views in `area`.
pub fn view_popup_area(shown: usize, area: Area) -> (r: Area)
    requires
        area.width >= 6,
        area.height >= 2,
        shown + 8 <= u16::MAX,
    ensures
        r == spec_view_popup_area(shown as int, area),
{
    let want: u16 = shown as u16 + 8;
    let h0: u16 = if want <= area.height - 2 { want } else { area.height - 2 };
    let h: u16 = if h0 >= 8 { h0 } else { 8 };
    let w: u16 = if 60 <= area.width - 4 { 60 } else { area.width - 4 };
    Area {
        x: (if area.width >= w { area.width - w } else { 0 }) / 2,
        y: (if area.height >= h { area.height - h } else { 0 }) / 2,
        width: w,
        height: h,
    }
}

/// The popup's title in each mode.
pub fn view_popup_title(mode: ViewPopupMode) -> (s: &'static str)
    ensures
        s@ == spec_view_popup_title(mode),
{
    match mode {
        ViewPopupMode::SaveInput => " Save View ",
        ViewPopupMode::ConfirmDelete => " Confirm Delete ",
        _ => " Views ",
    }
}

} // verus!
