//! The sessions columns: the column editor, applying it, saved layouts, the field
//! selector and the order of the summary table.
use vstd::prelude::*;
use crate::app::columns::{ColumnDef, ColumnDefView, ColumnEditorItem, ColumnEditorItemView, SavedLayout, cv,
    column_views, string_views, spec_default_columns, default_columns, spec_width_for_field, width_for_field};
use crate::app::types::{ColumnEditorMode, SummarySort};
use crate::app::viewer::{App, ArkimeField, ArkimeFieldView, SummaryItem, arkime_views, pair_views,
    column_fields, synced_sort_column, ViewerState};
use crate::json::JsonView;
use crate::seqs::{first_match, first_index, lemma_first_match_at, lemma_first_match_none, lemma_first_index_bounds,
    stable_order, text_before, number_before, stable_order_text, stable_order_number, lemma_stable_order_permutation};
use crate::text::{str_to_string, string_eq, string_eq_str, to_lowercase, spec_to_lowercase, spec_contains, chars_of,
    chars_contains};

verus! {

pub open spec fn key_is(key: Seq<char>) -> spec_fn((Seq<char>, Seq<char>)) -> bool {
    |e: (Seq<char>, Seq<char>)| e.0 == key
}

pub open spec fn names_field(f: Seq<char>) -> spec_fn(ArkimeFieldView) -> bool {
    |a: ArkimeFieldView| a.exp == f || a.db_field == f
}

pub open spec fn db_field_is(f: Seq<char>) -> spec_fn(ArkimeFieldView) -> bool {
    |a: ArkimeFieldView| a.db_field == f
}

pub open spec fn col_field_is(f: Seq<char>) -> spec_fn(ColumnDefView) -> bool {
    |c: ColumnDefView| c.field == f
}

/// The friendly name of a database field in a map of friendly names.
pub open spec fn spec_friendly(map: Seq<(Seq<char>, Seq<char>)>, key: Seq<char>) -> Option<Seq<char>> {
    match first_match(map, key_is(key)) {
        Some(e) => Some(e.1),
        None => None,
    }
}

fn find_pair(map: &Vec<(String, String)>, key: &String) -> (r: Option<usize>)
    ensures
        match r {
            Some(i) => i < map@.len() && first_match(pair_views(map@), key_is(key@)) == Some(pair_views(map@)[i as int]),
            None => first_match(pair_views(map@), key_is(key@)) is None,
        },
{
    let ghost pv = pair_views(map@);
    let mut i: usize = 0;
    while i < map.len()
        invariant
            i <= map@.len(),
            pv == pair_views(map@),
            forall|k: int| 0 <= k < i ==> !key_is(key@)(#[trigger] pv[k]),
        decreases map.len() - i,
    {
        if string_eq(&map[i].0, key) {
            proof { lemma_first_match_at(pv, key_is(key@), i as int); }
            return Some(i);
        }
        i = i + 1;
    }
    proof { lemma_first_match_none(pv, key_is(key@)); }
    None
}

fn find_field_named(all: &Vec<ArkimeField>, f: &String) -> (r: Option<usize>)
    ensures
        match r {
            Some(i) => i < all@.len() && first_match(arkime_views(all@), names_field(f@)) == Some(all@[i as int]@),
            None => first_match(arkime_views(all@), names_field(f@)) is None,
        },
{
    let ghost av = arkime_views(all@);
    let mut i: usize = 0;
    while i < all.len()
        invariant
            i <= all@.len(),
            av == arkime_views(all@),
            forall|k: int| 0 <= k < i ==> !names_field(f@)(#[trigger] av[k]),
        decreases all.len() - i,
    {
        if string_eq(&all[i].exp, f) || string_eq(&all[i].db_field, f) {
            proof { lemma_first_match_at(av, names_field(f@), i as int); }
            return Some(i);
        }
        i = i + 1;
    }
    proof { lemma_first_match_none(av, names_field(f@)); }
    None
}

fn find_field_db(all: &Vec<ArkimeField>, f: &String) -> (r: Option<usize>)
    ensures
        match r {
            Some(i) => i < all@.len() && first_match(arkime_views(all@), db_field_is(f@)) == Some(all@[i as int]@),
            None => first_match(arkime_views(all@), db_field_is(f@)) is None,
        },
{
    let ghost av = arkime_views(all@);
    let mut i: usize = 0;
    while i < all.len()
        invariant
            i <= all@.len(),
            av == arkime_views(all@),
            forall|k: int| 0 <= k < i ==> !db_field_is(f@)(#[trigger] av[k]),
        decreases all.len() - i,
    {
        if string_eq(&all[i].db_field, f) {
            proof { lemma_first_match_at(av, db_field_is(f@), i as int); }
            return Some(i);
        }
        i = i + 1;
    }
    proof { lemma_first_match_none(av, db_field_is(f@)); }
    None
}

fn find_column(cols: &Vec<ColumnDef>, f: &String) -> (r: Option<usize>)
    ensures
        match r {
            Some(i) => i < cols@.len() && first_match(column_views(cols@), col_field_is(f@)) == Some(cols@[i as int]@)
                && first_index(column_views(cols@), col_field_is(f@)) == i,
            None => first_match(column_views(cols@), col_field_is(f@)) is None,
        },
{
    let ghost cvs = column_views(cols@);
    let mut i: usize = 0;
    while i < cols.len()
        invariant
            i <= cols@.len(),
            cvs == column_views(cols@),
            forall|k: int| 0 <= k < i ==> !col_field_is(f@)(#[trigger] cvs[k]),
        decreases cols.len() - i,
    {
        if string_eq(&cols[i].field, f) {
            proof { lemma_first_match_at(cvs, col_field_is(f@), i as int); }
            return Some(i);
        }
        i = i + 1;
    }
    proof { lemma_first_match_none(cvs, col_field_is(f@)); }
    None
}

/// Whether some column has field `f`.
pub open spec fn column_has_field(cols: Seq<ColumnDefView>, f: Seq<char>) -> bool {
    exists|k: int| 0 <= k < cols.len() && cols[k].field == f
}

/// A field is offered to enable in the editor when it has a database name, no column
/// shows it yet, and it is visible.
pub open spec fn offered(cols: Seq<ColumnDefView>, a: ArkimeFieldView) -> bool {
    a.db_field.len() > 0 && !column_has_field(cols, a.db_field) && a.visible
}

/// The fields offered to enable, in the order of the field list.
pub open spec fn fields_offered(fields: Seq<ArkimeFieldView>, cols: Seq<ColumnDefView>) -> Seq<ArkimeFieldView>
    decreases fields.len(),
{
    if fields.len() == 0 {
        seq![]
    } else {
        let prev = fields_offered(fields.drop_last(), cols);
        if offered(cols, fields.last()) {
            prev.push(fields.last())
        } else {
            prev
        }
    }
}

pub open spec fn enabled_item(map: Seq<(Seq<char>, Seq<char>)>, c: ColumnDefView) -> ColumnEditorItemView {
    ColumnEditorItemView {
        db_field: c.field,
        exp: c.exp,
        friendly_name: match spec_friendly(map, c.field) {
            Some(n) => n,
            None => c.label,
        },
        enabled: true,
    }
}

pub open spec fn offered_item(a: ArkimeFieldView) -> ColumnEditorItemView {
    ColumnEditorItemView { db_field: a.db_field, exp: a.exp, friendly_name: a.friendly_name, enabled: false }
}

pub open spec fn editor_item_views(s: Seq<ColumnEditorItem>) -> Seq<ColumnEditorItemView> {
    s.map_values(|i: ColumnEditorItem| i@)
}

/// The entries of the sessions column editor: the columns first, enabled, named by their
/// friendly names (or labels); then the fields offered to enable, disabled and in the
/// order of their expression names.
pub open spec fn spec_session_editor_items(
    cols: Seq<ColumnDefView>,
    fields: Seq<ArkimeFieldView>,
    map: Seq<(Seq<char>, Seq<char>)>,
) -> Seq<ColumnEditorItemView> {
    let rem = fields_offered(fields, cols);
    let order = stable_order(rem.len(), text_before(rem.map_values(|a: ArkimeFieldView| a.exp), false));
    cols.map_values(|c: ColumnDefView| enabled_item(map, c)) + order.map_values(|i: int| offered_item(rem[i]))
}

/// The column that an enabled editor entry becomes: a known default column keeps its
/// width and label; another takes the width of its field's type (16 when the field is
/// unknown) and its friendly name.
pub open spec fn column_of_item(fields: Seq<ArkimeFieldView>, it: ColumnEditorItemView) -> ColumnDefView {
    match first_match(spec_default_columns(), col_field_is(it.db_field)) {
        Some(d) => cv(it.db_field, it.exp, d.label, d.width),
        None => cv(
            it.db_field,
            it.exp,
            it.friendly_name,
            match first_match(fields, db_field_is(it.db_field)) {
                Some(a) => spec_width_for_field(a.field_type),
                None => 16,
            },
        ),
    }
}

pub open spec fn spec_apply_session_items(items: Seq<ColumnEditorItemView>, fields: Seq<ArkimeFieldView>) -> Seq<ColumnDefView>
    decreases items.len(),
{
    if items.len() == 0 {
        seq![]
    } else {
        let prev = spec_apply_session_items(items.drop_last(), fields);
        if items.last().enabled {
            prev.push(column_of_item(fields, items.last()))
        } else {
            prev
        }
    }
}

/// The column that a field named in a saved layout becomes. The name may be an
/// expression or a database name; an unknown name stands for both.
pub open spec fn layout_column(fields: Seq<ArkimeFieldView>, map: Seq<(Seq<char>, Seq<char>)>, f: Seq<char>) -> ColumnDefView {
    let found = first_match(fields, names_field(f));
    let db = match found { Some(a) => a.db_field, None => f };
    let exp = match found { Some(a) => a.exp, None => f };
    let label = match spec_friendly(map, db) { Some(l) => l, None => f };
    let width = match found { Some(a) => spec_width_for_field(a.field_type), None => 16 };
    match first_match(spec_default_columns(), col_field_is(db)) {
        Some(d) => cv(db, exp, d.label, d.width),
        None => cv(db, exp, label, width),
    }
}

pub open spec fn ip_protocol_column() -> ColumnDefView {
    cv("ipProtocol"@, "ip.protocol"@, "IP"@, 4)
}

/// The columns of a saved layout: the protocol column, then one column per name.
pub open spec fn spec_layout_columns(fields: Seq<ArkimeFieldView>, map: Seq<(Seq<char>, Seq<char>)>, names: Seq<Seq<char>>) -> Seq<ColumnDefView> {
    seq![ip_protocol_column()] + names.map_values(|f: Seq<char>| layout_column(fields, map, f))
}

/// The database name that a layout's sort key stands for.
pub open spec fn layout_sort_db(fields: Seq<ArkimeFieldView>, key: Seq<char>) -> Seq<char> {
    match first_match(fields, names_field(key)) {
        Some(a) => a.db_field,
        None => key,
    }
}

/// The sort column and direction after applying a layout to the columns `cols`.
pub open spec fn layout_sort(fields: Seq<ArkimeFieldView>, cols: Seq<ColumnDefView>, layout_key: Seq<char>, dir: Seq<char>,
    column: usize, desc: bool) -> (usize, bool)
{
    let db = layout_sort_db(fields, layout_key);
    if layout_key.len() > 0 && first_match(cols, col_field_is(db)) is Some {
        (first_index(cols, col_field_is(db)) as usize, dir == "desc"@)
    } else {
        (column, desc)
    }
}

/// A field is listed by the field selector when it is visible and, under a filter, its
/// expression or friendly name contains the lowercase filter once lowercased.
pub open spec fn listed(a: ArkimeFieldView, filter: Seq<char>) -> bool {
    a.visible && (filter.len() == 0
        || spec_contains(spec_to_lowercase(a.exp), spec_to_lowercase(filter))
        || spec_contains(spec_to_lowercase(a.friendly_name), spec_to_lowercase(filter)))
}

pub open spec fn fields_listed(fields: Seq<ArkimeFieldView>, filter: Seq<char>) -> Seq<ArkimeFieldView>
    decreases fields.len(),
{
    if fields.len() == 0 {
        seq![]
    } else {
        let prev = fields_listed(fields.drop_last(), filter);
        if listed(fields.last(), filter) {
            prev.push(fields.last())
        } else {
            prev
        }
    }
}

pub struct SummaryItemView {
    pub item: JsonView,
    pub sessions: u64,
    pub packets: u64,
    pub bytes: u64,
}

impl View for SummaryItem {
    type V = SummaryItemView;

    open spec fn view(&self) -> SummaryItemView {
        SummaryItemView { item: self.item@, sessions: self.sessions, packets: self.packets, bytes: self.bytes }
    }
}

pub open spec fn summary_views(s: Seq<SummaryItem>) -> Seq<SummaryItemView> {
    s.map_values(|i: SummaryItem| i@)
}

/// The text by which a summary row sorts on its value: the value when it is a string.
pub open spec fn summary_text_key(v: SummaryItemView) -> Seq<char> {
    match v.item.as_str() {
        Some(s) => s,
        None => Seq::empty(),
    }
}

/// The summary rows in the order of the chosen key and direction; rows with equal keys
/// keep their order.
pub open spec fn spec_sorted_summary(rows: Seq<SummaryItemView>, sort: SummarySort, desc: bool) -> Seq<SummaryItemView> {
    let order = match sort {
        SummarySort::Value => stable_order(rows.len(), text_before(rows.map_values(|r: SummaryItemView| summary_text_key(r)), desc)),
        SummarySort::Sessions => stable_order(rows.len(), number_before(rows.map_values(|r: SummaryItemView| r.sessions), desc)),
        SummarySort::Packets => stable_order(rows.len(), number_before(rows.map_values(|r: SummaryItemView| r.packets), desc)),
        SummarySort::Bytes => stable_order(rows.len(), number_before(rows.map_values(|r: SummaryItemView| r.bytes), desc)),
    };
    order.map_values(|i: int| rows[i])
}

fn column_has(cols: &Vec<ColumnDef>, f: &String) -> (r: bool)
    ensures
        r == column_has_field(column_views(cols@), f@),
{
    match find_column(cols, f) {
        Some(i) => {
            proof { crate::seqs::lemma_first_index_bounds(column_views(cols@), col_field_is(f@)); }
            assert(col_field_is(f@)(column_views(cols@)[i as int]));
            true
        },
        None => {
            proof {
                if column_has_field(column_views(cols@), f@) {
                    let k = choose|k: int| 0 <= k < cols@.len() && column_views(cols@)[k].field == f@;
                    crate::seqs::lemma_first_index_bounds(column_views(cols@), col_field_is(f@));
                    assert(col_field_is(f@)(column_views(cols@)[k]));
                    if first_index(column_views(cols@), col_field_is(f@)) == cols@.len() {
                        assert(!col_field_is(f@)(column_views(cols@)[k]));
                    }
                }
            }
            false
        },
    }
}

fn friendly_or(map: &Vec<(String, String)>, key: &String, fallback: &String) -> (r: String)
    ensures
        r@ == (match spec_friendly(pair_views(map@), key@) {
            Some(n) => n,
            None => fallback@,
        }),
{
    match find_pair(map, key) {
        Some(i) => map[i].1.clone(),
        None => fallback.clone(),
    }
}

impl App {
    /// Fills the sessions column editor: the columns first, enabled and in order, named by
    /// their friendly names; then the visible fields that no column shows, disabled and
    /// in the order of their expression names.
    pub fn vr_build_column_editor(&mut self)
        ensures
            editor_item_views(final(self).viewer.column_editor_available@) == spec_session_editor_items(
                column_views(old(self).viewer.columns@),
                arkime_views(old(self).viewer.all_fields@),
                pair_views(old(self).viewer.field_friendly_map@),
            ),
            final(self).viewer.column_editor_filter@ == Seq::<char>::empty(),
            *final(self) == (App {
                viewer: ViewerState {
                    column_editor_available: final(self).viewer.column_editor_available,
                    column_editor_selected: 0,
                    column_editor_mode: ColumnEditorMode::Browse,
                    column_editor_filter: final(self).viewer.column_editor_filter,
                    column_editor_filter_cursor: 0,
                    ..old(self).viewer
                },
                ..*old(self)
            }),
    {
        let ghost cols = column_views(self.viewer.columns@);
        let ghost fields = arkime_views(self.viewer.all_fields@);
        let ghost map = pair_views(self.viewer.field_friendly_map@);
        let mut items: Vec<ColumnEditorItem> = Vec::new();
        let mut i: usize = 0;
        while i < self.viewer.columns.len()
            invariant
                i <= self.viewer.columns@.len(),
                cols == column_views(self.viewer.columns@),
                map == pair_views(self.viewer.field_friendly_map@),
                editor_item_views(items@) == cols.subrange(0, i as int).map_values(|c: ColumnDefView| enabled_item(map, c)),
            decreases self.viewer.columns.len() - i,
        {
            let col = &self.viewer.columns[i];
            let friendly = friendly_or(&self.viewer.field_friendly_map, &col.field, &col.label);
            let it = ColumnEditorItem { db_field: col.field.clone(), exp: col.exp.clone(), friendly_name: friendly, enabled: true };
            let ghost prev = items@;
            assert(it@ == enabled_item(map, cols[i as int]));
            items.push(it);
            assert(editor_item_views(items@) =~= editor_item_views(prev).push(it@));
            assert(cols.subrange(0, i + 1).map_values(|c: ColumnDefView| enabled_item(map, c))
                =~= cols.subrange(0, i as int).map_values(|c: ColumnDefView| enabled_item(map, c)).push(it@));
            i = i + 1;
        }
        assert(cols.subrange(0, cols.len() as int) =~= cols);
        let ghost enabled_part = editor_item_views(items@);
        let mut rem: Vec<usize> = Vec::new();
        let mut j: usize = 0;
        while j < self.viewer.all_fields.len()
            invariant
                j <= self.viewer.all_fields@.len(),
                cols == column_views(self.viewer.columns@),
                fields == arkime_views(self.viewer.all_fields@),
                rem@.map_values(|k: usize| fields[k as int]) == fields_offered(fields.subrange(0, j as int), cols),
                forall|k: int| 0 <= k < rem@.len() ==> rem@[k] < j,
            decreases self.viewer.all_fields.len() - j,
        {
            let ghost prev = rem@;
            assert(fields.subrange(0, j + 1).drop_last() =~= fields.subrange(0, j as int));
            assert(fields.subrange(0, j + 1).last() == fields[j as int]);
            let f = &self.viewer.all_fields[j];
            if !f.db_field.as_str().is_empty() && !column_has(&self.viewer.columns, &f.db_field) && f.is_visible() {
                rem.push(j);
                assert(rem@.map_values(|k: usize| fields[k as int]) =~= prev.map_values(|k: usize| fields[k as int]).push(fields[j as int]));
            }
            j = j + 1;
        }
        assert(fields.subrange(0, fields.len() as int) =~= fields);
        let ghost remv = rem@.map_values(|k: usize| fields[k as int]);
        let mut keys: Vec<String> = Vec::new();
        let mut k: usize = 0;
        while k < rem.len()
            invariant
                k <= rem@.len(),
                fields == arkime_views(self.viewer.all_fields@),
                remv == rem@.map_values(|x: usize| fields[x as int]),
                forall|x: int| 0 <= x < rem@.len() ==> rem@[x] < self.viewer.all_fields@.len(),
                keys@.map_values(|s: String| s@) == remv.map_values(|a: ArkimeFieldView| a.exp).subrange(0, k as int),
            decreases rem.len() - k,
        {
            let ghost prev = keys@;
            let e = self.viewer.all_fields[rem[k]].exp.clone();
            assert(e@ == remv[k as int].exp);
            keys.push(e);
            assert(keys@.map_values(|s: String| s@) =~= prev.map_values(|s: String| s@).push(e@));
            assert(remv.map_values(|a: ArkimeFieldView| a.exp).subrange(0, k + 1)
                =~= remv.map_values(|a: ArkimeFieldView| a.exp).subrange(0, k as int).push(e@));
            k = k + 1;
        }
        assert(remv.map_values(|a: ArkimeFieldView| a.exp).subrange(0, rem@.len() as int) =~= remv.map_values(|a: ArkimeFieldView| a.exp));
        let order = stable_order_text(&keys, false);
        let ghost ord = stable_order(remv.len(), text_before(remv.map_values(|a: ArkimeFieldView| a.exp), false));
        proof {
            lemma_stable_order_permutation(remv.len(), text_before(remv.map_values(|a: ArkimeFieldView| a.exp), false));
        }
        let mut m: usize = 0;
        while m < order.len()
            invariant
                m <= order@.len(),
                order@.len() == ord.len(),
                ord.len() == remv.len(),
                remv.len() == rem@.len(),
                forall|x: int| 0 <= x < ord.len() ==> 0 <= #[trigger] ord[x] < remv.len(),
                order@.map_values(|x: usize| x as int) == ord,
                forall|x: int| 0 <= x < rem@.len() ==> rem@[x] < self.viewer.all_fields@.len(),
                fields == arkime_views(self.viewer.all_fields@),
                remv == rem@.map_values(|x: usize| fields[x as int]),
                editor_item_views(items@) == enabled_part + ord.subrange(0, m as int).map_values(|x: int| offered_item(remv[x])),
            decreases order.len() - m,
        {
            assert(order@[m as int] as int == ord[m as int]);
            let idx = rem[order[m]];
            let f = &self.viewer.all_fields[idx];
            let it = ColumnEditorItem { db_field: f.db_field.clone(), exp: f.exp.clone(), friendly_name: f.friendly_name.clone(), enabled: false };
            let ghost prev = items@;
            assert(it@ == offered_item(remv[ord[m as int]]));
            items.push(it);
            assert(editor_item_views(items@) =~= editor_item_views(prev).push(it@));
            assert(ord.subrange(0, m + 1).map_values(|x: int| offered_item(remv[x]))
                =~= ord.subrange(0, m as int).map_values(|x: int| offered_item(remv[x])).push(it@));
            m = m + 1;
        }
        assert(ord.subrange(0, ord.len() as int) =~= ord);
        self.viewer.column_editor_available = items;
        self.viewer.column_editor_selected = 0;
        self.viewer.column_editor_mode = ColumnEditorMode::Browse;
        self.viewer.column_editor_filter = String::new();
        self.viewer.column_editor_filter_cursor = 0;
    }
}

impl App {
    /// Applies the sessions column editor: the columns become the enabled entries, in
    /// order, and the session fields follow. Nothing changes when no entry is enabled.
    pub fn vr_apply_column_editor(&mut self)
        ensures
            ({
                let cols = spec_apply_session_items(
                    editor_item_views(old(self).viewer.column_editor_available@),
                    arkime_views(old(self).viewer.all_fields@),
                );
                if cols.len() == 0 {
                    *final(self) == *old(self)
                } else {
                    &&& column_views(final(self).viewer.columns@) == cols
                    &&& final(self).viewer.session_fields@.map_values(|s: String| s@) == column_fields(cols)
                    &&& *final(self) == (App {
                        viewer: ViewerState {
                            columns: final(self).viewer.columns,
                            session_fields: final(self).viewer.session_fields,
                            sort_column: synced_sort_column(old(self).viewer.sort_column, cols.len()),
                            ..old(self).viewer
                        },
                        ..*old(self)
                    })
                }
            }),
    {
        let ghost fields = arkime_views(self.viewer.all_fields@);
        let ghost iv = editor_item_views(self.viewer.column_editor_available@);
        let defaults = default_columns();
        let mut new_cols: Vec<ColumnDef> = Vec::new();
        let mut i: usize = 0;
        while i < self.viewer.column_editor_available.len()
            invariant
                i <= self.viewer.column_editor_available@.len(),
                fields == arkime_views(self.viewer.all_fields@),
                iv == editor_item_views(self.viewer.column_editor_available@),
                column_views(defaults@) == spec_default_columns(),
                column_views(new_cols@) == spec_apply_session_items(iv.subrange(0, i as int), fields),
            decreases self.viewer.column_editor_available.len() - i,
        {
            assert(iv.subrange(0, i + 1).drop_last() =~= iv.subrange(0, i as int));
            assert(iv.subrange(0, i + 1).last() == iv[i as int]);
            let item = &self.viewer.column_editor_available[i];
            assert(item@ == iv[i as int]);
            if item.enabled {
                let d = find_column(&defaults, &item.db_field);
                let width: u16 = match d {
                    Some(k) => defaults[k].width,
                    None => match find_field_db(&self.viewer.all_fields, &item.db_field) {
                        Some(a) => width_for_field(self.viewer.all_fields[a].field_type.as_str()),
                        None => 16,
                    },
                };
                let label = match d {
                    Some(k) => defaults[k].label.clone(),
                    None => item.friendly_name.clone(),
                };
                let c = ColumnDef { field: item.db_field.clone(), exp: item.exp.clone(), label, width };
                assert(c@ == column_of_item(fields, iv[i as int]));
                let ghost prev = new_cols@;
                new_cols.push(c);
                assert(column_views(new_cols@) =~= column_views(prev).push(c@));
            }
            i = i + 1;
        }
        assert(iv.subrange(0, iv.len() as int) =~= iv);
        if new_cols.len() > 0 {
            self.viewer.columns = new_cols;
            self.vr_sync_session_fields();
        }
    }

    /// Applies a saved layout to the sessions table: the protocol column, then a column
    /// for each field of the layout; the layout's sort key, when a column shows it,
    /// becomes the sort column with the layout's direction.
    pub fn vr_apply_layout(&mut self, layout: &SavedLayout)
        ensures
            ({
                let fields = arkime_views(old(self).viewer.all_fields@);
                let map = pair_views(old(self).viewer.field_friendly_map@);
                let cols = spec_layout_columns(fields, map, string_views(layout.columns@));
                let sort = layout_sort(fields, cols, layout.sort_field@, layout.sort_dir@,
                    synced_sort_column(old(self).viewer.sort_column, cols.len()), old(self).viewer.sort_desc);
                &&& column_views(final(self).viewer.columns@) == cols
                &&& final(self).viewer.session_fields@.map_values(|s: String| s@) == column_fields(cols)
                &&& *final(self) == (App {
                    viewer: ViewerState {
                        columns: final(self).viewer.columns,
                        session_fields: final(self).viewer.session_fields,
                        sort_column: sort.0,
                        sort_desc: sort.1,
                        ..old(self).viewer
                    },
                    ..*old(self)
                })
            }),
    {
        let ghost fields = arkime_views(self.viewer.all_fields@);
        let ghost map = pair_views(self.viewer.field_friendly_map@);
        let ghost names = string_views(layout.columns@);
        let defaults = default_columns();
        let mut cols: Vec<ColumnDef> = Vec::new();
        cols.push(ColumnDef::new("ipProtocol", "ip.protocol", "IP", 4));
        let mut i: usize = 0;
        while i < layout.columns.len()
            invariant
                i <= layout.columns@.len(),
                fields == arkime_views(self.viewer.all_fields@),
                map == pair_views(self.viewer.field_friendly_map@),
                names == string_views(layout.columns@),
                column_views(defaults@) == spec_default_columns(),
                column_views(cols@) == seq![ip_protocol_column()]
                    + names.subrange(0, i as int).map_values(|f: Seq<char>| layout_column(fields, map, f)),
            decreases layout.columns.len() - i,
        {
            let field = &layout.columns[i];
            let found = find_field_named(&self.viewer.all_fields, field);
            let db = match found {
                Some(k) => self.viewer.all_fields[k].db_field.clone(),
                None => field.clone(),
            };
            let exp = match found {
                Some(k) => self.viewer.all_fields[k].exp.clone(),
                None => field.clone(),
            };
            let label0 = friendly_or(&self.viewer.field_friendly_map, &db, field);
            let width0: u16 = match found {
                Some(k) => width_for_field(self.viewer.all_fields[k].field_type.as_str()),
                None => 16,
            };
            let c = match find_column(&defaults, &db) {
                Some(d) => ColumnDef { field: db, exp, label: defaults[d].label.clone(), width: defaults[d].width },
                None => ColumnDef { field: db, exp, label: label0, width: width0 },
            };
            assert(c@ == layout_column(fields, map, names[i as int]));
            let ghost prev = cols@;
            cols.push(c);
            assert(column_views(cols@) =~= column_views(prev).push(c@));
            assert(names.subrange(0, i + 1).map_values(|f: Seq<char>| layout_column(fields, map, f))
                =~= names.subrange(0, i as int).map_values(|f: Seq<char>| layout_column(fields, map, f)).push(c@));
            i = i + 1;
        }
        assert(names.subrange(0, names.len() as int) =~= names);
        self.viewer.columns = cols;
        self.vr_sync_session_fields();
        if !layout.sort_field.as_str().is_empty() {
            let sort_db = match find_field_named(&self.viewer.all_fields, &layout.sort_field) {
                Some(k) => self.viewer.all_fields[k].db_field.clone(),
                None => layout.sort_field.clone(),
            };
            match find_column(&self.viewer.columns, &sort_db) {
                Some(idx) => {
                    self.viewer.sort_column = idx;
                    self.viewer.sort_desc = string_eq_str(&layout.sort_dir, "desc");
                },
                None => {},
            }
        }
    }

    /// The fields of the field selector: the visible fields, in order, and under a filter
    /// those whose expression or friendly name contains it, ignoring case.
    pub fn vr_filtered_fields(&self) -> (r: Vec<&ArkimeField>)
        ensures
            r@.map_values(|a: &ArkimeField| a@) == fields_listed(arkime_views(self.viewer.all_fields@), self.viewer.field_filter@),
    {
        let ghost fields = arkime_views(self.viewer.all_fields@);
        let filter_empty = self.viewer.field_filter.as_str().is_empty();
        let lower = to_lowercase(self.viewer.field_filter.as_str());
        let needle = chars_of(lower.as_str());
        let mut r: Vec<&ArkimeField> = Vec::new();
        let mut i: usize = 0;
        while i < self.viewer.all_fields.len()
            invariant
                i <= self.viewer.all_fields@.len(),
                fields == arkime_views(self.viewer.all_fields@),
                filter_empty == (self.viewer.field_filter@.len() == 0),
                needle@ == spec_to_lowercase(self.viewer.field_filter@),
                r@.map_values(|a: &ArkimeField| a@) == fields_listed(fields.subrange(0, i as int), self.viewer.field_filter@),
            decreases self.viewer.all_fields.len() - i,
        {
            assert(fields.subrange(0, i + 1).drop_last() =~= fields.subrange(0, i as int));
            assert(fields.subrange(0, i + 1).last() == fields[i as int]);
            let f = &self.viewer.all_fields[i];
            let keep = if !f.is_visible() {
                false
            } else if filter_empty {
                true
            } else {
                let e = to_lowercase(f.exp.as_str());
                let n = to_lowercase(f.friendly_name.as_str());
                chars_contains(&chars_of(e.as_str()), &needle) || chars_contains(&chars_of(n.as_str()), &needle)
            };
            assert(keep == listed(fields[i as int], self.viewer.field_filter@));
            let ghost prev = r@;
            if keep {
                r.push(f);
                assert(r@.map_values(|a: &ArkimeField| a@) =~= prev.map_values(|a: &ArkimeField| a@).push(f@));
            }
            i = i + 1;
        }
        assert(fields.subrange(0, fields.len() as int) =~= fields);
        r
    }

    /// Orders the summary rows by the chosen key and direction, keeping the order of rows
    /// with equal keys, and selects the first row.
    pub fn vr_sort_summary_data(&mut self)
        ensures
            summary_views(final(self).viewer.summary_data@) == spec_sorted_summary(
                summary_views(old(self).viewer.summary_data@),
                old(self).viewer.summary_sort,
                old(self).viewer.summary_sort_desc,
            ),
            *final(self) == (App {
                viewer: ViewerState {
                    summary_data: final(self).viewer.summary_data,
                    summary_selected: 0,
                    summary_table_selected: Some(0),
                    ..old(self).viewer
                },
                ..*old(self)
            }),
    {
        let ghost rows = summary_views(self.viewer.summary_data@);
        let desc = self.viewer.summary_sort_desc;
        let n = self.viewer.summary_data.len();
        let order = match self.viewer.summary_sort {
            SummarySort::Value => {
                let mut keys: Vec<String> = Vec::new();
                let mut i: usize = 0;
                while i < n
                    invariant
                        n == self.viewer.summary_data@.len(),
                        rows == summary_views(self.viewer.summary_data@),
                        i <= n,
                        keys@.map_values(|k: String| k@) == rows.map_values(|r: SummaryItemView| summary_text_key(r)).subrange(0, i as int),
                    decreases n - i,
                {
                    let k = match self.viewer.summary_data[i].item.as_str() {
                        Some(s) => str_to_string(s),
                        None => String::new(),
                    };
                    assert(k@ == summary_text_key(rows[i as int]));
                    let ghost prev = keys@;
                    keys.push(k);
                    assert(keys@.map_values(|k: String| k@) =~= prev.map_values(|k: String| k@).push(k@));
                    assert(rows.map_values(|r: SummaryItemView| summary_text_key(r)).subrange(0, i + 1)
                        =~= rows.map_values(|r: SummaryItemView| summary_text_key(r)).subrange(0, i as int).push(k@));
                    i = i + 1;
                }
                assert(keys@.map_values(|k: String| k@) =~= rows.map_values(|r: SummaryItemView| summary_text_key(r)));
                stable_order_text(&keys, desc)
            },
            SummarySort::Sessions | SummarySort::Packets | SummarySort::Bytes => {
                let sort = self.viewer.summary_sort;
                let mut keys: Vec<u64> = Vec::new();
                let mut i: usize = 0;
                while i < n
                    invariant
                        n == self.viewer.summary_data@.len(),
                        rows == summary_views(self.viewer.summary_data@),
                        sort == self.viewer.summary_sort,
                        sort != SummarySort::Value,
                        i <= n,
                        keys@ == rows.map_values(|r: SummaryItemView| match sort {
                            SummarySort::Sessions => r.sessions,
                            SummarySort::Packets => r.packets,
                            _ => r.bytes,
                        }).subrange(0, i as int),
                    decreases n - i,
                {
                    let row = &self.viewer.summary_data[i];
                    let k = match sort {
                        SummarySort::Sessions => row.sessions,
                        SummarySort::Packets => row.packets,
                        _ => row.bytes,
                    };
                    keys.push(k);
                    assert(keys@ =~= rows.map_values(|r: SummaryItemView| match sort {
                        SummarySort::Sessions => r.sessions,
                        SummarySort::Packets => r.packets,
                        _ => r.bytes,
                    }).subrange(0, i + 1));
                    i = i + 1;
                }
                proof {
                    let ks = rows.map_values(|r: SummaryItemView| match sort {
                        SummarySort::Sessions => r.sessions,
                        SummarySort::Packets => r.packets,
                        _ => r.bytes,
                    });
                    assert(keys@ =~= ks);
                    if sort == SummarySort::Sessions {
                        assert(ks =~= rows.map_values(|r: SummaryItemView| r.sessions));
                    } else if sort == SummarySort::Packets {
                        assert(ks =~= rows.map_values(|r: SummaryItemView| r.packets));
                    } else {
                        assert(ks =~= rows.map_values(|r: SummaryItemView| r.bytes));
                    }
                }
                stable_order_number(&keys, desc)
            },
        };
        let ghost ord = order@.map_values(|x: usize| x as int);
        proof {
            let before = match self.viewer.summary_sort {
                SummarySort::Value => text_before(rows.map_values(|r: SummaryItemView| summary_text_key(r)), desc),
                SummarySort::Sessions => number_before(rows.map_values(|r: SummaryItemView| r.sessions), desc),
                SummarySort::Packets => number_before(rows.map_values(|r: SummaryItemView| r.packets), desc),
                SummarySort::Bytes => number_before(rows.map_values(|r: SummaryItemView| r.bytes), desc),
            };
            lemma_stable_order_permutation(rows.len(), before);
        }
        let mut sorted: Vec<SummaryItem> = Vec::new();
        let mut m: usize = 0;
        while m < order.len()
            invariant
                m <= order@.len(),
                order@.len() == n,
                n == self.viewer.summary_data@.len(),
                ord == order@.map_values(|x: usize| x as int),
                forall|x: int| 0 <= x < n ==> 0 <= #[trigger] ord[x] < n,
                rows == summary_views(self.viewer.summary_data@),
                summary_views(sorted@) == ord.subrange(0, m as int).map_values(|i: int| rows[i]),
            decreases order.len() - m,
        {
            assert(ord[m as int] == order@[m as int] as int);
            let row = &self.viewer.summary_data[order[m]];
            let copy = SummaryItem { item: row.item.duplicate(), sessions: row.sessions, packets: row.packets, bytes: row.bytes };
            let ghost prev = sorted@;
            sorted.push(copy);
            assert(summary_views(sorted@) =~= summary_views(prev).push(copy@));
            assert(ord.subrange(0, m + 1).map_values(|i: int| rows[i]) =~= ord.subrange(0, m as int).map_values(|i: int| rows[i]).push(copy@));
            m = m + 1;
        }
        assert(ord.subrange(0, ord.len() as int) =~= ord);
        self.viewer.summary_data = sorted;
        self.viewer.summary_selected = 0;
        self.viewer.summary_table_selected = Some(0);
    }
}

/// The key by which a summary row is compared, as a number for the count keys.
pub open spec fn summary_count(r: SummaryItemView, sort: SummarySort) -> u64 {
    match sort {
        SummarySort::Sessions => r.sessions,
        SummarySort::Packets => r.packets,
        _ => r.bytes,
    }
}

/// Sorting the summary keeps every row once and leaves them in order: ascending, no
/// row's key is below that of a row before it; descending, no row's key is above it.
pub proof fn lemma_sorted_summary(rows: Seq<SummaryItemView>, sort: SummarySort, desc: bool)
    ensures
        ({
            let out = spec_sorted_summary(rows, sort, desc);
            &&& out.len() == rows.len()
            &&& out.to_multiset() == rows.to_multiset()
            &&& forall|a: int, b: int| 0 <= a < b < out.len() ==> (if sort == SummarySort::Value {
                if desc {
                    !crate::text::seq_lt(summary_text_key(out[a]), summary_text_key(out[b]))
                } else {
                    !crate::text::seq_lt(summary_text_key(out[b]), summary_text_key(out[a]))
                }
            } else {
                if desc {
                    summary_count(out[b], sort) <= summary_count(out[a], sort)
                } else {
                    summary_count(out[a], sort) <= summary_count(out[b], sort)
                }
            })
        }),
{
    let n = rows.len();
    let before = match sort {
        SummarySort::Value => text_before(rows.map_values(|r: SummaryItemView| summary_text_key(r)), desc),
        SummarySort::Sessions => number_before(rows.map_values(|r: SummaryItemView| r.sessions), desc),
        SummarySort::Packets => number_before(rows.map_values(|r: SummaryItemView| r.packets), desc),
        SummarySort::Bytes => number_before(rows.map_values(|r: SummaryItemView| r.bytes), desc),
    };
    let order = stable_order(n, before);
    let out = spec_sorted_summary(rows, sort, desc);
    assert(out == order.map_values(|i: int| rows[i]));
    lemma_stable_order_permutation(n, before);
    if n > 0 {
        match sort {
            SummarySort::Value => crate::seqs::lemma_text_before_strict(rows.map_values(|r: SummaryItemView| summary_text_key(r)), desc),
            SummarySort::Sessions => crate::seqs::lemma_number_before_strict(rows.map_values(|r: SummaryItemView| r.sessions), desc),
            SummarySort::Packets => crate::seqs::lemma_number_before_strict(rows.map_values(|r: SummaryItemView| r.packets), desc),
            SummarySort::Bytes => crate::seqs::lemma_number_before_strict(rows.map_values(|r: SummaryItemView| r.bytes), desc),
        }
    }
    crate::seqs::lemma_stable_order_sorted(n, before);
    assert forall|a: int, b: int| 0 <= a < b < out.len() implies (if sort == SummarySort::Value {
        if desc {
            !crate::text::seq_lt(summary_text_key(out[a]), summary_text_key(out[b]))
        } else {
            !crate::text::seq_lt(summary_text_key(out[b]), summary_text_key(out[a]))
        }
    } else {
        if desc {
            summary_count(out[b], sort) <= summary_count(out[a], sort)
        } else {
            summary_count(out[a], sort) <= summary_count(out[b], sort)
        }
    }) by {
        assert(!before(order[b], order[a]));
        assert(out[a] == rows[order[a]] && out[b] == rows[order[b]]);
    }
    crate::seqs::lemma_stable_order_multiset(rows, before);
}

proof fn lemma_listed_contains(fields: Seq<ArkimeFieldView>, filter: Seq<char>, a: ArkimeFieldView)
    ensures
        fields_listed(fields, filter).contains(a) <==> (fields.contains(a) && listed(a, filter)),
    decreases fields.len(),
{
    if fields.len() > 0 {
        let prev = fields.drop_last();
        let last = fields.last();
        lemma_listed_contains(prev, filter, a);
        let lp = fields_listed(prev, filter);
        assert(fields =~= prev.push(last));
        if fields.contains(a) {
            let i = choose|i: int| 0 <= i < fields.len() && fields[i] == a;
            if i < prev.len() {
                assert(prev[i] == a);
            }
        }
        if prev.contains(a) {
            let i = choose|i: int| 0 <= i < prev.len() && prev[i] == a;
            assert(fields[i] == a);
        }
        assert(fields[fields.len() - 1] == last);
        if listed(last, filter) {
            let r = lp.push(last);
            if r.contains(a) {
                let i = choose|i: int| 0 <= i < r.len() && r[i] == a;
                if i < lp.len() {
                    assert(lp[i] == a);
                }
            }
            if lp.contains(a) {
                let i = choose|i: int| 0 <= i < lp.len() && lp[i] == a;
                assert(r[i] == a);
            }
            assert(r[lp.len() as int] == last);
        }
    }
}

/// The field selector lists only visible fields of the list, each matching the filter:
/// with an empty filter every visible field; under a filter exactly the visible fields
/// whose expression or whose friendly name, lowercased, contains the lowercased filter.
pub proof fn lemma_field_selector_lists(fields: Seq<ArkimeFieldView>, filter: Seq<char>, a: ArkimeFieldView)
    ensures
        fields_listed(fields, filter).contains(a) ==> fields.contains(a) && a.visible && (filter.len() == 0
            || spec_contains(spec_to_lowercase(a.exp), spec_to_lowercase(filter))
            || spec_contains(spec_to_lowercase(a.friendly_name), spec_to_lowercase(filter))),
        fields.contains(a) && a.visible && filter.len() == 0 ==> fields_listed(fields, filter).contains(a),
        fields.contains(a) && a.visible && spec_contains(spec_to_lowercase(a.exp), spec_to_lowercase(filter))
            ==> fields_listed(fields, filter).contains(a),
        fields.contains(a) && a.visible && spec_contains(spec_to_lowercase(a.friendly_name), spec_to_lowercase(filter))
            ==> fields_listed(fields, filter).contains(a),
        !a.visible ==> !fields_listed(fields, filter).contains(a),
{
    lemma_listed_contains(fields, filter, a);
}

/// Applying a layout whose sort key names a column that the layout shows sorts by the
/// first column showing it, descending exactly when the layout's direction is `desc`;
/// a layout without a sort key, or whose key no column shows, leaves the sort as it was.
pub proof fn lemma_layout_sort_direction(
    fields: Seq<ArkimeFieldView>,
    cols: Seq<ColumnDefView>,
    key: Seq<char>,
    dir: Seq<char>,
    column: usize,
    desc: bool,
)
    requires
        cols.len() <= usize::MAX,
    ensures
        ({
            let db = layout_sort_db(fields, key);
            let s = layout_sort(fields, cols, key, dir, column, desc);
            &&& (key.len() > 0 && exists|i: int| 0 <= i < cols.len() && (#[trigger] cols[i]).field == db) ==> {
                &&& s.1 == (dir == "desc"@)
                &&& 0 <= s.0 < cols.len()
                &&& cols[s.0 as int].field == db
                &&& forall|k: int| 0 <= k < s.0 ==> (#[trigger] cols[k]).field != db
            }
            &&& (key.len() == 0 || forall|i: int| 0 <= i < cols.len() ==> (#[trigger] cols[i]).field != db) ==> s == (
                column,
                desc,
            )
        }),
{
    let db = layout_sort_db(fields, key);
    let p = col_field_is(db);
    lemma_first_index_bounds(cols, p);
    if exists|i: int| 0 <= i < cols.len() && (#[trigger] cols[i]).field == db {
        let i = choose|i: int| 0 <= i < cols.len() && (#[trigger] cols[i]).field == db;
        assert(p(cols[i]));
        if first_index(cols, p) >= cols.len() {
            assert(!p(cols[i]));
        }
        let fi = first_index(cols, p);
        assert(fi as usize as int == fi);
        assert(p(cols[fi]));
        assert forall|k: int| 0 <= k < fi implies (#[trigger] cols[k]).field != db by {
            assert(!p(cols[k]));
        }
    }
    if forall|i: int| 0 <= i < cols.len() ==> (#[trigger] cols[i]).field != db {
        assert forall|k: int| 0 <= k < cols.len() implies !p(#[trigger] cols[k]) by {}
        lemma_first_match_none(cols, p);
    }
}

/// Applying the column editor makes a column of each enabled entry, in the entries'
/// order, and none of a disabled one: the columns are as many as the enabled entries,
/// and the k-th shows the field of the k-th enabled entry.
pub proof fn lemma_editor_columns_are_enabled_entries(items: Seq<ColumnEditorItemView>, fields: Seq<ArkimeFieldView>)
    ensures
        ({
            let cols = spec_apply_session_items(items, fields);
            let on = items.filter(|it: ColumnEditorItemView| it.enabled);
            &&& cols.len() == on.len()
            &&& forall|k: int| 0 <= k < cols.len() ==> (#[trigger] cols[k]).field == on[k].db_field && cols[k].exp == on[k].exp
        }),
    decreases items.len(),
{
    reveal(Seq::filter);
    if items.len() > 0 {
        lemma_editor_columns_are_enabled_entries(items.drop_last(), fields);
        let cols = spec_apply_session_items(items, fields);
        let prev = spec_apply_session_items(items.drop_last(), fields);
        let on = items.filter(|it: ColumnEditorItemView| it.enabled);
        let pon = items.drop_last().filter(|it: ColumnEditorItemView| it.enabled);
        if items.last().enabled {
            assert(on == pon.push(items.last()));
            assert forall|k: int| 0 <= k < cols.len() implies (#[trigger] cols[k]).field == on[k].db_field && cols[k].exp
                == on[k].exp by {
                if k < prev.len() {
                    assert(cols[k] == prev[k]);
                    assert(on[k] == pon[k]);
                }
            }
        } else {
            assert(on == pon);
        }
    }
}

} // verus!
