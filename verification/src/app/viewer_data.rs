//! What the viewer makes of the documents the server answers with: saved layouts,
//! the rows and totals of the Stats and Files tables, the DB shards grid, and the
//! column state of the Stats and Files tabs that the server keeps for the user.
use vstd::prelude::*;
use vstd::string::StrSliceExecFns;
use crate::app::columns::{SavedLayout, string_views, stats_views, spec_columns_from_fields,
    spec_stats_tab_all_columns, spec_files_all_columns, stats_tab_all_columns, files_all_columns,
    stats_columns_from_fields, StatsColumnDefView};
use crate::app::stats_columns::{find_sort_column, sort_after, sorts_by, str_refs, active_stats};
use crate::app::viewer::stats_sort_or;
use crate::app::types::StatsTab;
use crate::app::viewer::App;
use crate::json::{JsonValue, JsonView, json_views};
use crate::text::{str_to_string, string_eq_str};
use crate::app::viewer::{ViewerState, SessionDetail};
use crate::app::types::{SessionView, spec_is_hidden_detail_field, is_hidden_detail_field};
use crate::ui::format::{number_text, spec_digits};
use crate::ui::json_lines::append_str;

verus! {

/// The string at `key` of an object.
pub open spec fn str_at(v: JsonView, key: Seq<char>) -> Option<Seq<char>> {
    match v.get(key) {
        Some(x) => x.as_str(),
        None => None,
    }
}

/// The array at `key` of an object.
pub open spec fn array_at(v: JsonView, key: Seq<char>) -> Option<Seq<JsonView>> {
    match v.get(key) {
        Some(x) => x.as_array(),
        None => None,
    }
}

/// The strings among the items, in order.
pub open spec fn strings_in(a: Seq<JsonView>) -> Seq<Seq<char>>
    decreases a.len(),
{
    if a.len() == 0 {
        seq![]
    } else {
        strings_in(a.drop_last()) + (match a.last().as_str() {
            Some(s) => seq![s],
            None => seq![],
        })
    }
}

/// The sort of a saved state: the first pair of `order`, as (field, direction), the
/// field empty and the direction `asc` where they are missing; two empty texts when
/// there is no such pair.
pub open spec fn order_pair(v: JsonView) -> (Seq<char>, Seq<char>) {
    match array_at(v, "order"@) {
        Some(a) => if a.len() > 0 && a[0].as_array() is Some {
            let pair = a[0].as_array()->0;
            (
                if pair.len() > 0 && pair[0].as_str() is Some { pair[0].as_str()->0 } else { seq![] },
                if pair.len() > 1 && pair[1].as_str() is Some { pair[1].as_str()->0 } else { "asc"@ },
            )
        } else {
            (seq![], seq![])
        },
        None => (seq![], seq![]),
    }
}

/// The strings among the items of an array.
pub fn strings_of(a: &Vec<JsonValue>) -> (r: Vec<String>)
    ensures
        string_views(r@) == strings_in(json_views(a@)),
{
    let ghost av = json_views(a@);
    let mut out: Vec<String> = Vec::new();
    let mut i: usize = 0;
    while i < a.len()
        invariant
            i <= a.len(),
            av == json_views(a@),
            string_views(out@) == strings_in(av.take(i as int)),
        decreases a.len() - i,
    {
        assert(av.take(i + 1).drop_last() =~= av.take(i as int));
        assert(av.take(i + 1).last() == a@[i as int]@);
        match a[i].as_str() {
            Some(s) => {
                let ghost prev = out@;
                let t = str_to_string(s);
                out.push(t);
                assert(string_views(out@) =~= string_views(prev).push(t@));
            },
            None => {},
        }
        assert(string_views(out@) =~= strings_in(av.take(i + 1)));
        i = i + 1;
    }
    assert(av.take(a.len() as int) =~= av);
    out
}

/// The first pair of `order` of a saved state.
pub fn order_pair_of(v: &JsonValue) -> (r: (String, String))
    ensures
        (r.0@, r.1@) == order_pair(v@),
{
    proof {
        reveal_strlit("order");
        reveal_strlit("asc");
    }
    let none = (String::new(), String::new());
    match v.get("order") {
        Some(o) => match o.as_array() {
            Some(a) => {
                if a.len() == 0 {
                    return none;
                }
                match a[0].as_array() {
                    Some(pair) => {
                        let f = if pair.len() > 0 {
                            match pair[0].as_str() {
                                Some(s) => str_to_string(s),
                                None => String::new(),
                            }
                        } else {
                            String::new()
                        };
                        let d = if pair.len() > 1 {
                            match pair[1].as_str() {
                                Some(s) => str_to_string(s),
                                None => str_to_string("asc"),
                            }
                        } else {
                            str_to_string("asc")
                        };
                        (f, d)
                    },
                    None => none,
                }
            },
            None => none,
        },
        None => none,
    }
}

pub struct SavedLayoutView {
    pub name: Seq<char>,
    pub columns: Seq<Seq<char>>,
    pub sort_field: Seq<char>,
    pub sort_dir: Seq<char>,
}

pub open spec fn layout_view(l: SavedLayout) -> SavedLayoutView {
    SavedLayoutView { name: l.name@, columns: string_views(l.columns@), sort_field: l.sort_field@, sort_dir: l.sort_dir@ }
}

pub open spec fn layout_views(s: Seq<SavedLayout>) -> Seq<SavedLayoutView> {
    s.map_values(|l: SavedLayout| layout_view(l))
}

/// The layout that an item of the layouts document describes: none without a name.
pub open spec fn layout_of(v: JsonView) -> Option<SavedLayoutView> {
    let name = match str_at(v, "name"@) {
        Some(n) => n,
        None => seq![],
    };
    if name.len() == 0 {
        None
    } else {
        Some(SavedLayoutView {
            name: name,
            columns: match array_at(v, "columns"@) {
                Some(a) => strings_in(a),
                None => seq![],
            },
            sort_field: order_pair(v).0,
            sort_dir: order_pair(v).1,
        })
    }
}

pub open spec fn layouts_in(items: Seq<JsonView>) -> Seq<SavedLayoutView>
    decreases items.len(),
{
    if items.len() == 0 {
        seq![]
    } else {
        layouts_in(items.drop_last()) + (match layout_of(items.last()) {
            Some(l) => seq![l],
            None => seq![],
        })
    }
}

/// The items of the layouts document: an array's items, or an object's member values.
pub open spec fn layout_items(v: JsonView) -> Seq<JsonView> {
    match v {
        JsonView::Array(a) => a,
        JsonView::Object(m) => m.map_values(|p: (Seq<char>, JsonView)| p.1),
        _ => seq![],
    }
}

/// The saved layouts of the sessions table that a layouts document describes.
pub open spec fn spec_parse_layouts(v: JsonView) -> Seq<SavedLayoutView> {
    layouts_in(layout_items(v))
}

fn layout_from(v: &JsonValue) -> (r: Option<SavedLayout>)
    ensures
        match r {
            Some(l) => layout_of(v@) == Some(layout_view(l)),
            None => layout_of(v@) is None,
        },
{
    proof {
        reveal_strlit("name");
        reveal_strlit("columns");
    }
    let name = match v.get("name") {
        Some(n) => match n.as_str() {
            Some(s) => str_to_string(s),
            None => String::new(),
        },
        None => String::new(),
    };
    if name.as_str().unicode_len() == 0 {
        return None;
    }
    let columns = match v.get("columns") {
        Some(c) => match c.as_array() {
            Some(a) => strings_of(a),
            None => Vec::new(),
        },
        None => Vec::new(),
    };
    assert(array_at(v@, "columns"@) is None ==> string_views(columns@) =~= seq![]);
    let (sort_field, sort_dir) = order_pair_of(v);
    Some(SavedLayout { name, columns, sort_field, sort_dir })
}

/// Reads the saved layouts from the layouts document: each item with a name, in order.
pub fn parse_layouts(v: &JsonValue) -> (r: Vec<SavedLayout>)
    ensures
        layout_views(r@) == spec_parse_layouts(v@),
{
    let mut out: Vec<SavedLayout> = Vec::new();
    match v {
        JsonValue::Array(a) => {
            let ghost av = json_views(a@);
            assert(layout_items(v@) == av) by {
                if let JsonView::Array(x) = v@ {
                    assert(x =~= av);
                }
            }
            let mut i: usize = 0;
            while i < a.len()
                invariant
                    i <= a.len(),
                    av == json_views(a@),
                    layout_views(out@) == layouts_in(av.take(i as int)),
                decreases a.len() - i,
            {
                assert(av.take(i + 1).drop_last() =~= av.take(i as int));
                assert(av.take(i + 1).last() == a@[i as int]@);
                let ghost prev = out@;
                match layout_from(&a[i]) {
                    Some(l) => {
                        out.push(l);
                        assert(layout_views(out@) =~= layout_views(prev).push(layout_view(l)));
                    },
                    None => {},
                }
                assert(layout_views(out@) =~= layouts_in(av.take(i + 1)));
                i = i + 1;
            }
            assert(av.take(a.len() as int) =~= av);
        },
        JsonValue::Object(o) => {
            let ghost ov = o@.map_values(|m: (String, JsonValue)| m.1@);
            assert(layout_items(v@) == ov) by {
                if let JsonView::Object(x) = v@ {
                    assert(x.map_values(|p: (Seq<char>, JsonView)| p.1) =~= ov);
                }
            }
            let mut i: usize = 0;
            while i < o.len()
                invariant
                    i <= o.len(),
                    ov == o@.map_values(|m: (String, JsonValue)| m.1@),
                    layout_views(out@) == layouts_in(ov.take(i as int)),
                decreases o.len() - i,
            {
                assert(ov.take(i + 1).drop_last() =~= ov.take(i as int));
                assert(ov.take(i + 1).last() == o@[i as int].1@);
                let ghost prev = out@;
                match layout_from(&o[i].1) {
                    Some(l) => {
                        out.push(l);
                        assert(layout_views(out@) =~= layout_views(prev).push(layout_view(l)));
                    },
                    None => {},
                }
                assert(layout_views(out@) =~= layouts_in(ov.take(i + 1)));
                i = i + 1;
            }
            assert(ov.take(o.len() as int) =~= ov);
        },
        _ => {
            assert(layout_views(out@) =~= seq![]);
        },
    }
    out
}

/// The number at `key` of an object, 0 where there is none.
pub open spec fn u64_at(v: JsonView, key: Seq<char>) -> u64 {
    match v.get(key) {
        Some(x) => match x.as_u64() {
            Some(n) => n,
            None => 0,
        },
        None => 0,
    }
}

/// The rows of a table document: its `data` array, or none.
pub open spec fn rows_of(v: JsonView) -> Seq<JsonView> {
    match array_at(v, "data"@) {
        Some(a) => a,
        None => seq![],
    }
}

/// Deep copies of the values.
pub fn copy_values(a: &Vec<JsonValue>) -> (r: Vec<JsonValue>)
    ensures
        json_views(r@) == json_views(a@),
{
    let mut out: Vec<JsonValue> = Vec::new();
    let mut i: usize = 0;
    while i < a.len()
        invariant
            i <= a.len(),
            json_views(out@) == json_views(a@).take(i as int),
        decreases a.len() - i,
    {
        let ghost prev = out@;
        let x = a[i].duplicate();
        out.push(x);
        assert(json_views(out@) =~= json_views(prev).push(x@));
        assert(json_views(out@) =~= json_views(a@).take(i + 1));
        i = i + 1;
    }
    assert(json_views(a@).take(a.len() as int) =~= json_views(a@));
    out
}

/// The rows of a table document.
fn rows_from(v: &JsonValue) -> (r: Vec<JsonValue>)
    ensures
        json_views(r@) == rows_of(v@),
{
    proof {
        reveal_strlit("data");
    }
    match v.get("data") {
        Some(d) => match d.as_array() {
            Some(a) => copy_values(a),
            None => {
                let r: Vec<JsonValue> = Vec::new();
                assert(json_views(r@) =~= seq![]);
                r
            },
        },
        None => {
            let r: Vec<JsonValue> = Vec::new();
            assert(json_views(r@) =~= seq![]);
            r
        },
    }
}

fn u64_from(v: &JsonValue, key: &str) -> (r: u64)
    ensures
        r == u64_at(v@, key@),
{
    match v.get(key) {
        Some(x) => match x.as_u64() {
            Some(n) => n,
            None => 0,
        },
        None => 0,
    }
}

/// The status line after a Stats table was loaded: `<tab>: <n> items`.
pub open spec fn stats_loaded_msg(tab: StatsTab, n: nat) -> Seq<char> {
    tab.spec_name() + ": "@ + spec_digits(n) + " items"@
}

impl App {
    /// Keeps the saved layouts that the layouts document describes.
    pub fn vr_apply_layouts(&mut self, doc: &JsonValue)
        ensures
            layout_views(final(self).viewer.saved_layouts@) == spec_parse_layouts(doc@),
            *final(self) == (App {
                viewer: ViewerState { saved_layouts: final(self).viewer.saved_layouts, ..old(self).viewer },
                ..*old(self)
            }),
    {
        self.viewer.saved_layouts = parse_layouts(doc);
    }

    /// Takes in the rows and totals of a Stats table: the `data` rows, the
    /// `recordsTotal` and `recordsFiltered` numbers (0 where missing), the first row
    /// selected.
    pub fn vr_apply_stats_response(&mut self, doc: &JsonValue)
        ensures
            json_views(final(self).viewer.stats_data@) == rows_of(doc@),
            final(self).status_msg@ == stats_loaded_msg(old(self).viewer.stats_tab, rows_of(doc@).len()),
            *final(self) == (App {
                viewer: ViewerState {
                    stats_data: final(self).viewer.stats_data,
                    stats_total: u64_at(doc@, "recordsTotal"@),
                    stats_filtered: u64_at(doc@, "recordsFiltered"@),
                    stats_selected: 0,
                    ..old(self).viewer
                },
                status_msg: final(self).status_msg,
                ..*old(self)
            }),
    {
        proof {
            reveal_strlit("recordsTotal");
            reveal_strlit("recordsFiltered");
        }
        let rows = rows_from(doc);
        let total = u64_from(doc, "recordsTotal");
        let filtered = u64_from(doc, "recordsFiltered");
        let n = rows.len();
        let mut msg = str_to_string(self.viewer.stats_tab.name());
        append_str(&mut msg, ": ");
        let digits = number_text(n as u64);
        append_str(&mut msg, digits.as_str());
        append_str(&mut msg, " items");
        self.viewer.stats_data = rows;
        self.viewer.stats_total = total;
        self.viewer.stats_filtered = filtered;
        self.viewer.stats_selected = 0;
        self.status_msg = msg;
    }

    /// Takes in the rows and totals of the Files table; the selection stays where it
    /// still points at a row, else goes back to the first.
    pub fn vr_apply_files_response(&mut self, doc: &JsonValue)
        ensures
            json_views(final(self).viewer.files_data@) == rows_of(doc@),
            final(self).status_msg@ == Seq::<char>::empty(),
            *final(self) == (App {
                viewer: ViewerState {
                    files_data: final(self).viewer.files_data,
                    files_total: u64_at(doc@, "recordsTotal"@),
                    files_filtered: u64_at(doc@, "recordsFiltered"@),
                    files_selected: if old(self).viewer.files_selected >= rows_of(doc@).len() { 0 } else { old(self).viewer.files_selected },
                    ..old(self).viewer
                },
                status_msg: final(self).status_msg,
                ..*old(self)
            }),
    {
        proof {
            reveal_strlit("recordsTotal");
            reveal_strlit("recordsFiltered");
        }
        let rows = rows_from(doc);
        let total = u64_from(doc, "recordsTotal");
        let filtered = u64_from(doc, "recordsFiltered");
        if self.viewer.files_selected >= rows.len() {
            self.viewer.files_selected = 0;
        }
        self.viewer.files_data = rows;
        self.viewer.files_total = total;
        self.viewer.files_filtered = filtered;
        self.status_msg = String::new();
    }
}

pub open spec fn dir_text(desc: bool) -> Seq<char> {
    if desc {
        "desc"@
    } else {
        "asc"@
    }
}

/// The column state kept on the server for a table: the sort as one
/// `[field, direction]` pair and the fields of the visible columns.
pub open spec fn state_doc(headers: Seq<Seq<char>>, sort_field: Seq<char>, desc: bool) -> JsonView {
    JsonView::Object(seq![
        ("order"@, JsonView::Array(seq![JsonView::Array(seq![JsonView::Str(sort_field), JsonView::Str(dir_text(desc))])])),
        ("visibleHeaders"@, JsonView::Array(headers.map_values(|h: Seq<char>| JsonView::Str(h)))),
    ])
}

pub open spec fn stats_fields(cols: Seq<StatsColumnDefView>) -> Seq<Seq<char>> {
    cols.map_values(|c: StatsColumnDefView| c.field)
}

/// Builds the column state document.
fn state_doc_of(cols: &[crate::app::columns::StatsColumnDef], sort_field: &str, desc: bool) -> (r: JsonValue)
    ensures
        r@ == state_doc(stats_fields(stats_views(cols@)), sort_field@, desc),
{
    proof {
        reveal_strlit("order");
        reveal_strlit("visibleHeaders");
        reveal_strlit("desc");
        reveal_strlit("asc");
    }
    let mut headers: Vec<JsonValue> = Vec::new();
    let ghost fv = stats_fields(stats_views(cols@));
    let mut i: usize = 0;
    while i < cols.len()
        invariant
            i <= cols.len(),
            fv == stats_fields(stats_views(cols@)),
            json_views(headers@) == fv.take(i as int).map_values(|h: Seq<char>| JsonView::Str(h)),
        decreases cols.len() - i,
    {
        let ghost prev = headers@;
        let h = JsonValue::Str(cols[i].field.clone());
        headers.push(h);
        assert(json_views(headers@) =~= json_views(prev).push(h@));
        assert(json_views(headers@) =~= fv.take(i + 1).map_values(|h: Seq<char>| JsonView::Str(h)));
        i = i + 1;
    }
    assert(fv.take(cols.len() as int) =~= fv);
    let dir = if desc { str_to_string("desc") } else { str_to_string("asc") };
    assert(dir@ == dir_text(desc));
    let mut items: Vec<JsonValue> = Vec::new();
    items.push(JsonValue::Str(str_to_string(sort_field)));
    items.push(JsonValue::Str(dir));
    assert(json_views(items@) =~= seq![JsonView::Str(sort_field@), JsonView::Str(dir_text(desc))]);
    let pair = JsonValue::Array(items);
    let order = JsonValue::Array(vec![pair]);
    let hv = JsonValue::Array(headers);
    let r = JsonValue::Object(vec![(str_to_string("order"), order), (str_to_string("visibleHeaders"), hv)]);
    proof {
        let pv = pair@;
        if let JsonView::Array(x) = pv {
            assert(x =~= json_views(items@));
        }
        if let JsonView::Array(x) = order@ {
            assert(x =~= seq![pv]);
        }
        if let JsonView::Array(x) = hv@ {
            assert(x =~= json_views(headers@));
        }
        if let JsonView::Object(x) = r@ {
            assert(x =~= seq![("order"@, order@), ("visibleHeaders"@, hv@)]);
        }
    }
    r
}

impl App {
    /// The name under which the server keeps the column state of a Stats sub-tab;
    /// the capture graphs and the recovery table keep none.
    pub fn stats_state_name(tab: StatsTab) -> (r: Option<&'static str>)
        ensures
            r matches Some(n) ==> n@ == (match tab {
                StatsTab::Capture => "captureStatsCols"@,
                StatsTab::DBStats => "esNodesCols"@,
                StatsTab::DBIndices => "esIndicesCols"@,
                StatsTab::DBTasks => "esTasksCols"@,
                _ => "esShardsCols"@,
            }),
            r is None <==> (tab == StatsTab::CaptureGraphs || tab == StatsTab::DBRecovery),
    {
        match tab {
            StatsTab::Capture => Some("captureStatsCols"),
            StatsTab::DBStats => Some("esNodesCols"),
            StatsTab::DBIndices => Some("esIndicesCols"),
            StatsTab::DBTasks => Some("esTasksCols"),
            StatsTab::DBShards => Some("esShardsCols"),
            StatsTab::CaptureGraphs => None,
            StatsTab::DBRecovery => None,
        }
    }

    /// The column state of the current Stats sub-tab.
    pub fn vr_stats_state_json(&self) -> (r: JsonValue)
        requires
            self.wf(),
        ensures
            r@ == state_doc(stats_fields(active_stats(*self)),
                stats_sort_or(active_stats(*self), self.viewer.stats_sort_column, "nodeName"@), self.viewer.stats_sort_desc),
    {
        let cols = self.vr_stats_active_columns();
        let sort = self.vr_stats_sort_field();
        state_doc_of(cols, sort, self.viewer.stats_sort_desc)
    }

    /// The column state of the Files tab.
    pub fn vr_files_state_json(&self) -> (r: JsonValue)
        ensures
            r@ == state_doc(stats_fields(stats_views(self.viewer.files_columns@)),
                stats_sort_or(stats_views(self.viewer.files_columns@), self.viewer.files_sort_column, "num"@), self.viewer.files_sort_desc),
    {
        let sort = self.vr_files_sort_field();
        state_doc_of(&self.viewer.files_columns, sort, self.viewer.files_sort_desc)
    }
}

/// The fields of the visible columns of a saved column state; none without a
/// `visibleHeaders` array.
pub open spec fn state_headers(state: JsonView) -> Option<Seq<Seq<char>>> {
    match array_at(state, "visibleHeaders"@) {
        Some(a) => Some(strings_in(a)),
        None => None,
    }
}

fn state_headers_of(state: &JsonValue) -> (r: Option<Vec<String>>)
    ensures
        match r {
            Some(h) => state_headers(state@) == Some(string_views(h@)),
            None => state_headers(state@) is None,
        },
{
    proof {
        reveal_strlit("visibleHeaders");
    }
    match state.get("visibleHeaders") {
        Some(v) => match v.as_array() {
            Some(a) => Some(strings_of(a)),
            None => None,
        },
        None => None,
    }
}

impl App {
    /// Applies the column state that the server keeps for Stats sub-tab `tab`: the
    /// listed columns that the sub-tab knows, in the listed order, and the saved sort
    /// when its column is among them, into the sub-tab's slot. Nothing changes when the
    /// state lists no column that the sub-tab knows, nor for a sub-tab without columns.
    pub fn vr_apply_stats_state(&mut self, tab: StatsTab, state: &JsonValue)
        requires
            old(self).wf(),
        ensures
            final(self).wf(),
            match state_headers(state@) {
                None => *final(self) == *old(self),
                Some(h) => {
                    let cols = spec_columns_from_fields(h, spec_stats_tab_all_columns(tab));
                    let idx = tab.spec_col_index()->0 as int;
                    let sort = sort_after(cols, order_pair(state@).0, order_pair(state@).1,
                        old(self).viewer.stats_sort_column, old(self).viewer.stats_sort_desc);
                    if cols.len() == 0 || tab.spec_col_index() is None {
                        *final(self) == *old(self)
                    } else {
                        &&& stats_views(final(self).viewer.stats_columns@[idx]@) == cols
                        &&& final(self).viewer.stats_columns@ == old(self).viewer.stats_columns@.update(idx, final(self).viewer.stats_columns@[idx])
                        &&& *final(self) == (App {
                            viewer: ViewerState {
                                stats_columns: final(self).viewer.stats_columns,
                                stats_sort_column: sort.0,
                                stats_sort_desc: sort.1,
                                ..old(self).viewer
                            },
                            ..*old(self)
                        })
                    }
                },
            },
    {
        let headers = match state_headers_of(state) {
            Some(h) => h,
            None => {
                return;
            },
        };
        let idx = match tab.col_index() {
            Some(i) => i,
            None => {
                return;
            },
        };
        let all = stats_tab_all_columns(tab);
        let refs = str_refs(&headers);
        let cols = stats_columns_from_fields(refs.as_slice(), all.as_slice());
        if cols.len() > 0 {
            let (sort_field, sort_dir) = order_pair_of(state);
            let found = if sort_field.as_str().unicode_len() == 0 { None } else { find_sort_column(&cols, &sort_field) };
            proof {
                crate::seqs::lemma_first_index_bounds(stats_views(cols@), sorts_by(sort_field@));
            }
            self.viewer.stats_columns.set(idx, cols);
            match found {
                Some(pos) => {
                    self.viewer.stats_sort_column = pos;
                    self.viewer.stats_sort_desc = string_eq_str(&sort_dir, "desc");
                },
                None => {},
            }
        }
    }

    /// Applies the column state that the server keeps for the Files tab, as for a
    /// Stats sub-tab.
    pub fn vr_apply_files_state(&mut self, state: &JsonValue)
        ensures
            match state_headers(state@) {
                None => *final(self) == *old(self),
                Some(h) => {
                    let cols = spec_columns_from_fields(h, spec_files_all_columns());
                    let sort = sort_after(cols, order_pair(state@).0, order_pair(state@).1,
                        old(self).viewer.files_sort_column, old(self).viewer.files_sort_desc);
                    if cols.len() == 0 {
                        *final(self) == *old(self)
                    } else {
                        &&& stats_views(final(self).viewer.files_columns@) == cols
                        &&& *final(self) == (App {
                            viewer: ViewerState {
                                files_columns: final(self).viewer.files_columns,
                                files_sort_column: sort.0,
                                files_sort_desc: sort.1,
                                ..old(self).viewer
                            },
                            ..*old(self)
                        })
                    }
                },
            },
    {
        let headers = match state_headers_of(state) {
            Some(h) => h,
            None => {
                return;
            },
        };
        let all = files_all_columns();
        let refs = str_refs(&headers);
        let cols = stats_columns_from_fields(refs.as_slice(), all.as_slice());
        if cols.len() > 0 {
            let (sort_field, sort_dir) = order_pair_of(state);
            let found = if sort_field.as_str().unicode_len() == 0 { None } else { find_sort_column(&cols, &sort_field) };
            proof {
                crate::seqs::lemma_first_index_bounds(stats_views(cols@), sorts_by(sort_field@));
            }
            self.viewer.files_columns = cols;
            match found {
                Some(pos) => {
                    self.viewer.files_sort_column = pos;
                    self.viewer.files_sort_desc = string_eq_str(&sort_dir, "desc");
                },
                None => {},
            }
        }
    }
}

/// The number of members of a session that the detail pane shows: those whose key
/// is not hidden; none for a value that is not an object.
pub open spec fn shown_rows(data: JsonView) -> nat {
    match data {
        JsonView::Object(m) => shown_keys(m.map_values(|p: (Seq<char>, JsonView)| p.0)),
        _ => 0,
    }
}

pub open spec fn shown_keys(keys: Seq<Seq<char>>) -> nat
    decreases keys.len(),
{
    if keys.len() == 0 {
        0
    } else {
        shown_keys(keys.drop_last()) + (if spec_is_hidden_detail_field(keys.last()) { 0nat } else { 1nat })
    }
}

/// The status line of a loaded page of sessions: `Showing <first>-<last> of <n> sessions`.
pub open spec fn sessions_msg(page_start: u64, count: nat, filtered: u64) -> Seq<char> {
    let end = if page_start + count < filtered { page_start + count } else { filtered as int };
    "Showing "@ + spec_digits((page_start + 1) as nat) + "-"@ + spec_digits(end as nat) + " of "@
        + spec_digits(filtered as nat) + " sessions"@
}

impl App {
    /// The id of the selected session, for the detail request; `None`, with the status
    /// line saying so, when the selected session has no id, and `None` with nothing
    /// changed when no session is selected.
    pub fn vr_session_detail_request(&mut self) -> (r: Option<String>)
        ensures
            old(self).viewer.selected_session >= old(self).viewer.sessions@.len() ==> r is None && *final(self) == *old(self),
            old(self).viewer.selected_session < old(self).viewer.sessions@.len() ==> {
                let id = match str_at(old(self).viewer.sessions@[old(self).viewer.selected_session as int]@, "id"@) {
                    Some(x) => x,
                    None => seq![],
                };
                &&& (id.len() == 0 ==> r is None && final(self).status_msg@ == "No session id"@)
                &&& (id.len() > 0 ==> (r is Some && r->0@ == id && final(self).status_msg@ == "Fetching session detail..."@))
                &&& *final(self) == (App { status_msg: final(self).status_msg, ..*old(self) })
            },
    {
        proof {
            reveal_strlit("id");
        }
        if self.viewer.selected_session >= self.viewer.sessions.len() {
            return None;
        }
        let id = match self.viewer.sessions[self.viewer.selected_session].get("id") {
            Some(v) => match v.as_str() {
                Some(x) => str_to_string(x),
                None => String::new(),
            },
            None => String::new(),
        };
        if id.as_str().unicode_len() == 0 {
            self.status_msg = str_to_string("No session id");
            return None;
        }
        self.status_msg = str_to_string("Fetching session detail...");
        Some(id)
    }

    /// Opens a session's detail with the members it shows counted.
    pub fn vr_apply_session_detail(&mut self, data: JsonValue)
        ensures
            final(self).viewer.session_detail is Some,
            final(self).viewer.session_detail->0.data@ == data@,
            final(self).viewer.session_detail->0.total_rows == shown_rows(data@),
            final(self).viewer.session_detail->0.scroll == 0,
            final(self).viewer.session_detail->0.selected == 0,
            final(self).viewer.session_detail->0.filter@ == Seq::<char>::empty(),
            final(self).viewer.session_detail->0.filter_cursor == 0,
            final(self).status_msg@ == "Session detail loaded"@,
            *final(self) == (App {
                viewer: ViewerState {
                    session_detail: final(self).viewer.session_detail,
                    session_view: SessionView::Detail,
                    ..old(self).viewer
                },
                status_msg: final(self).status_msg,
                ..*old(self)
            }),
    {
        let mut rows: usize = 0;
        match &data {
            JsonValue::Object(o) => {
                let ghost kv = o@.map_values(|m: (String, JsonValue)| m.0@);
                assert(shown_rows(data@) == shown_keys(kv)) by {
                    if let JsonView::Object(x) = data@ {
                        assert(x.map_values(|p: (Seq<char>, JsonView)| p.0) =~= kv);
                    }
                }
                let mut i: usize = 0;
                while i < o.len()
                    invariant
                        i <= o.len(),
                        kv == o@.map_values(|m: (String, JsonValue)| m.0@),
                        rows == shown_keys(kv.take(i as int)),
                        rows <= i,
                    decreases o.len() - i,
                {
                    assert(kv.take(i + 1).drop_last() =~= kv.take(i as int));
                    assert(kv.take(i + 1).last() == o@[i as int].0@);
                    if !is_hidden_detail_field(o[i].0.as_str()) {
                        rows = rows + 1;
                    }
                    i = i + 1;
                }
                assert(kv.take(o.len() as int) =~= kv);
            },
            _ => {},
        }
        self.viewer.session_detail = Some(SessionDetail {
            data,
            scroll: 0,
            selected: 0,
            total_rows: rows,
            filter: String::new(),
            filter_cursor: 0,
        });
        self.viewer.session_view = SessionView::Detail;
        self.status_msg = str_to_string("Session detail loaded");
    }

    /// Takes in a page of sessions: on an expression error only the status line says
    /// so; else the rows and totals, the first row selected, and the range shown.
    pub fn vr_apply_sessions_response(&mut self, rows: Vec<JsonValue>, total: u64, filtered: u64, error: Option<String>)
        requires
            old(self).viewer.page_start < u64::MAX,
        ensures
            match error {
                Some(e) => final(self).status_msg@ == "Expression error: "@ + e@
                    && *final(self) == (App { status_msg: final(self).status_msg, ..*old(self) }),
                None => {
                    &&& json_views(final(self).viewer.sessions@) == json_views(rows@)
                    &&& final(self).status_msg@ == sessions_msg(old(self).viewer.page_start, rows@.len(), filtered)
                    &&& *final(self) == (App {
                        viewer: ViewerState {
                            sessions: final(self).viewer.sessions,
                            sessions_total: total,
                            sessions_filtered: filtered,
                            selected_session: 0,
                            ..old(self).viewer
                        },
                        status_msg: final(self).status_msg,
                        ..*old(self)
                    })
                },
            },
    {
        match error {
            Some(e) => {
                let mut msg = str_to_string("Expression error: ");
                append_str(&mut msg, e.as_str());
                self.status_msg = msg;
            },
            None => {
                let n = rows.len() as u64;
                let end: u64 = if (self.viewer.page_start as u128) + (n as u128) < filtered as u128 {
                    self.viewer.page_start + n
                } else {
                    filtered
                };
                let mut msg = str_to_string("Showing ");
                let a = number_text(self.viewer.page_start + 1);
                append_str(&mut msg, a.as_str());
                append_str(&mut msg, "-");
                let b = number_text(end);
                append_str(&mut msg, b.as_str());
                append_str(&mut msg, " of ");
                let c = number_text(filtered);
                append_str(&mut msg, c.as_str());
                append_str(&mut msg, " sessions");
                self.viewer.sessions = rows;
                self.viewer.sessions_total = total;
                self.viewer.sessions_filtered = filtered;
                self.viewer.selected_session = 0;
                self.status_msg = msg;
            },
        }
    }
}

proof fn lemma_strings_in_strs(h: Seq<Seq<char>>)
    ensures
        strings_in(h.map_values(|x: Seq<char>| JsonView::Str(x))) == h,
    decreases h.len(),
{
    if h.len() > 0 {
        lemma_strings_in_strs(h.drop_last());
        assert(h.map_values(|x: Seq<char>| JsonView::Str(x)).drop_last() =~= h.drop_last().map_values(|x: Seq<char>| JsonView::Str(x)));
        assert(h.drop_last().push(h.last()) =~= h);
    } else {
        assert(h.map_values(|x: Seq<char>| JsonView::Str(x)) =~= seq![]);
    }
}

/// The column state that is saved reads back as it was: the same visible fields
/// and the same sort.
pub proof fn lemma_state_doc_round_trip(headers: Seq<Seq<char>>, sort_field: Seq<char>, desc: bool)
    ensures
        state_headers(state_doc(headers, sort_field, desc)) == Some(headers),
        order_pair(state_doc(headers, sort_field, desc)) == (sort_field, dir_text(desc)),
{
    reveal_strlit("order");
    reveal_strlit("visibleHeaders");
    reveal_strlit("desc");
    reveal_strlit("asc");
    let doc = state_doc(headers, sort_field, desc);
    let members = seq![
        ("order"@, JsonView::Array(seq![JsonView::Array(seq![JsonView::Str(sort_field), JsonView::Str(dir_text(desc))])])),
        ("visibleHeaders"@, JsonView::Array(headers.map_values(|h: Seq<char>| JsonView::Str(h)))),
    ];
    assert("order"@ != "visibleHeaders"@) by {
        assert("order"@.len() != "visibleHeaders"@.len());
    }
    assert(members.drop_first() =~= seq![members[1]]);
    assert(members.drop_first()[0] == members[1]);
    assert(crate::json::spec_member(members.drop_first(), "visibleHeaders"@) == Some(members[1].1));
    assert(crate::json::spec_member(members, "visibleHeaders"@) == Some(members[1].1));
    assert(crate::json::spec_member(members, "order"@) == Some(members[0].1));
    lemma_strings_in_strs(headers);
}

} // verus!
