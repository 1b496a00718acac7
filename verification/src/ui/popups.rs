//! What the list popups show: which entries, in which rows, scrolled how far, in a
//! popup of which size.
use vstd::prelude::*;
use crate::text::{contains, spec_contains, spec_to_lowercase, str_to_string, string_eq, to_lowercase};
use crate::ui::format::{number_text, spec_digits};
use crate::ui::json_lines::append_str;
use crate::ui::layout::{center_popup, spec_center_popup, Area};

verus! {

/// The first row shown of a list of `n` rows in `visible` rows, so that the selected
/// row `sel` is the last one shown once it is below the first screenful.
pub open spec fn spec_list_scroll(n: int, sel: int, visible: int) -> int {
    if n > visible {
        if sel >= visible {
            sel - visible + 1
        } else {
            0
        }
    } else {
        0
    }
}

/// Whether an integration name passes the popup's filter: an empty filter passes every
/// name, another one the names that contain it, ignoring case.
pub open spec fn name_passes(name: Seq<char>, filter: Seq<char>) -> bool {
    filter.len() == 0 || spec_contains(spec_to_lowercase(name), spec_to_lowercase(filter))
}

/// The indices of the names that pass the filter, in order.
pub open spec fn passing_indices(names: Seq<Seq<char>>, filter: Seq<char>) -> Seq<int>
    decreases names.len(),
{
    if names.len() == 0 {
        seq![]
    } else {
        let prev = passing_indices(names.drop_last(), filter);
        if name_passes(names.last(), filter) {
            prev.push(names.len() - 1)
        } else {
            prev
        }
    }
}

/// A row of the integrations popup: the integration's index and name, whether it is
/// switched off, and whether the row is the selected one.
pub struct IntegrationRow {
    pub index: usize,
    pub name: String,
    pub disabled: bool,
    pub selected: bool,
}

pub open spec fn integration_row_view(r: IntegrationRow) -> (int, Seq<char>, bool, bool) {
    (r.index as int, r.name@, r.disabled, r.selected)
}

/// The integrations popup as drawn: where it stands, its title, how far its list is
/// scrolled, and the rows shown.
pub struct IntegrationPopupView {
    pub area: Area,
    pub title: String,
    pub scroll: usize,
    pub rows: Vec<IntegrationRow>,
}

pub open spec fn spec_integration_title(enabled: nat, total: nat) -> Seq<char> {
    " Integrations ("@ + spec_digits(enabled) + "/"@ + spec_digits(total) + ") "@
}

/// The popup's size before it is centred: 50 columns (4 fewer than the screen at most),
/// and a row per passing integration plus 5 (4 fewer than the screen at most).
pub open spec fn integration_popup_size(shown: int, area: Area) -> (u16, u16) {
    let aw: int = if area.width >= 4 { area.width - 4 } else { 0 };
    let ah: int = if area.height >= 4 { area.height - 4 } else { 0 };
    ((if 50 <= aw { 50 } else { aw }) as u16, (if shown + 5 <= ah { shown + 5 } else { ah }) as u16)
}

/// The rows shown: the passing integrations from the scroll position on, as many as
/// fit inside the border.
pub open spec fn spec_integration_rows(
    names: Seq<Seq<char>>,
    disabled: Seq<Seq<char>>,
    passing: Seq<int>,
    scroll: int,
    count: int,
    selected: int,
) -> Seq<(int, Seq<char>, bool, bool)> {
    Seq::new(
        count as nat,
        |k: int| (passing[scroll + k], names[passing[scroll + k]], disabled.contains(names[passing[scroll + k]]), scroll + k == selected),
    )
}

/// The lines shown inside a bordered popup of height `h`.
pub open spec fn inner_height(h: u16) -> int {
    if h >= 2 { h - 2 } else { 0 }
}

fn index_passing(names: &Vec<String>, filter: &str) -> (r: Vec<usize>)
    ensures
        r@.map_values(|i: usize| i as int) == passing_indices(names@.map_values(|s: String| s@), filter@),
{
    let ghost nv = names@.map_values(|s: String| s@);
    let lf = to_lowercase(filter);
    let empty = filter.is_empty();
    let mut r: Vec<usize> = Vec::new();
    let mut i: usize = 0;
    while i < names.len()
        invariant
            i <= names@.len(),
            nv == names@.map_values(|s: String| s@),
            lf@ == spec_to_lowercase(filter@),
            empty == (filter@.len() == 0),
            r@.map_values(|j: usize| j as int) == passing_indices(nv.take(i as int), filter@),
        decreases names.len() - i,
    {
        let ghost prev = r@.map_values(|j: usize| j as int);
        assert(nv.take(i + 1).drop_last() =~= nv.take(i as int));
        assert(nv.take(i + 1).last() == names@[i as int]@);
        let pass = if empty {
            true
        } else {
            let ln = to_lowercase(names[i].as_str());
            contains(ln.as_str(), lf.as_str())
        };
        if pass {
            r.push(i);
            assert(r@.map_values(|j: usize| j as int) =~= prev.push(i as int));
        }
        i = i + 1;
    }
    assert(nv.take(names@.len() as int) =~= nv);
    r
}

fn name_in(list: &Vec<String>, name: &String) -> (r: bool)
    ensures
        r == list@.map_values(|s: String| s@).contains(name@),
{
    let ghost lv = list@.map_values(|s: String| s@);
    let mut i: usize = 0;
    while i < list.len()
        invariant
            i <= list@.len(),
            lv == list@.map_values(|s: String| s@),
            forall|k: int| 0 <= k < i ==> lv[k] != name@,
        decreases list.len() - i,
    {
        if string_eq(&list[i], name) {
            assert(lv[i as int] == name@);
            return true;
        }
        i = i + 1;
    }
    false
}

/// The integrations popup of the Cont3xt search: the integrations whose names pass the
/// filter, the popup centred in `area`, its title with how many integrations are on out
/// of all, and the rows shown once the list is scrolled to keep `selected` in view.
pub fn integration_popup(
    names: &Vec<String>,
    disabled: &Vec<String>,
    filter: &str,
    selected: usize,
    area: Area,
) -> (r: IntegrationPopupView)
    requires
        disabled@.len() <= names@.len(),
        selected < usize::MAX,
        names@.len() + 5 <= u16::MAX,
        area.x + area.width <= u16::MAX,
        area.y + area.height <= u16::MAX,
    ensures
        ({
            let nv = names@.map_values(|s: String| s@);
            let dv = disabled@.map_values(|s: String| s@);
            let passing = passing_indices(nv, filter@);
            let size = integration_popup_size(passing.len() as int, area);
            let visible = inner_height(r.area.height);
            let scroll = spec_list_scroll(passing.len() as int, selected as int, visible);
            let count = if scroll + visible <= passing.len() { visible } else { passing.len() - scroll };
            &&& r.area == spec_center_popup(size.0, size.1, area)
            &&& r.title@ == spec_integration_title((names@.len() - disabled@.len()) as nat, names@.len())
            &&& r.scroll == scroll
            &&& r.rows@.map_values(|x: IntegrationRow| integration_row_view(x)) == spec_integration_rows(
                nv,
                dv,
                passing,
                scroll,
                if count >= 0 { count } else { 0 },
                selected as int,
            )
        }),
{
    let ghost nv = names@.map_values(|s: String| s@);
    let ghost dv = disabled@.map_values(|s: String| s@);
    let passing = index_passing(names, filter);
    let ghost pv = passing@.map_values(|i: usize| i as int);
    proof {
        lemma_passing_bounds(nv, filter@);
    }
    let total = names.len();
    let enabled = total - disabled.len();
    let aw: u16 = if area.width >= 4 { area.width - 4 } else { 0 };
    let ah: u16 = if area.height >= 4 { area.height - 4 } else { 0 };
    let w: u16 = if 50 <= aw { 50 } else { aw };
    let want: u16 = passing.len() as u16 + 5;
    let h: u16 = if want <= ah { want } else { ah };
    let popup = center_popup(w, h, area);
    let visible: usize = if popup.height >= 2 { (popup.height - 2) as usize } else { 0 };
    let n = passing.len();
    let scroll: usize = if n > visible {
        if selected >= visible { selected - visible + 1 } else { 0 }
    } else {
        0
    };
    let mut title = str_to_string(" Integrations (");
    let e = number_text(enabled as u64);
    append_str(&mut title, e.as_str());
    append_str(&mut title, "/");
    let t = number_text(total as u64);
    append_str(&mut title, t.as_str());
    append_str(&mut title, ") ");
    let end: usize = if scroll <= n && visible <= n - scroll { scroll + visible } else { n };
    let mut rows: Vec<IntegrationRow> = Vec::new();
    let mut p: usize = scroll;
    while p < end
        invariant
            scroll <= p <= end || (end <= scroll && p == scroll),
            end <= n,
            n == passing@.len(),
            pv == passing@.map_values(|i: usize| i as int),
            pv == passing_indices(nv, filter@),
            forall|k: int| 0 <= k < pv.len() ==> 0 <= #[trigger] pv[k] < nv.len(),
            nv == names@.map_values(|s: String| s@),
            dv == disabled@.map_values(|s: String| s@),
            selected < usize::MAX,
            rows@.map_values(|x: IntegrationRow| integration_row_view(x)) == spec_integration_rows(
                nv,
                dv,
                pv,
                scroll as int,
                p - scroll,
                selected as int,
            ),
        decreases end - p,
    {
        let ghost prev = rows@.map_values(|x: IntegrationRow| integration_row_view(x));
        let idx = passing[p];
        assert(pv[p as int] == idx as int);
        let name = names[idx].clone();
        assert(nv[idx as int] == names@[idx as int]@);
        assert(name@ == nv[pv[p as int]]);
        let off = name_in(disabled, &name);
        rows.push(IntegrationRow { index: idx, name, disabled: off, selected: p == selected });
        assert(rows@.map_values(|x: IntegrationRow| integration_row_view(x)) =~= prev.push(
            (pv[p as int], nv[pv[p as int]], dv.contains(nv[pv[p as int]]), p == selected),
        ));
        assert(rows@.map_values(|x: IntegrationRow| integration_row_view(x)) =~= spec_integration_rows(
            nv,
            dv,
            pv,
            scroll as int,
            p + 1 - scroll,
            selected as int,
        ));
        p = p + 1;
    }
    proof {
        if end <= scroll {
            assert(rows@.map_values(|x: IntegrationRow| integration_row_view(x)) =~= spec_integration_rows(nv, dv, pv, scroll as int, 0, selected as int));
        }
    }
    IntegrationPopupView { area: popup, title, scroll, rows }
}

proof fn lemma_passing_bounds(names: Seq<Seq<char>>, filter: Seq<char>)
    ensures
        passing_indices(names, filter).len() <= names.len(),
        forall|k: int| 0 <= k < passing_indices(names, filter).len() ==> 0 <= #[trigger] passing_indices(names, filter)[k] < names.len(),
    decreases names.len(),
{
    if names.len() > 0 {
        lemma_passing_bounds(names.drop_last(), filter);
    }
}

} // verus!
