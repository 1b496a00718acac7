//! The column editors and saved layouts of the Stats sub-tabs and of the Files tab.
use vstd::prelude::*;
use crate::app::columns::{StatsColumnDef, StatsColumnDefView, StatsColumnEditorItem, StatsColumnEditorItemView,
    SavedShareable, stats_views, str_views, string_views, spec_find_field, spec_columns_from_fields,
    find_stats_column, stats_columns_from_fields, stats_tab_all_columns, spec_stats_tab_all_columns,
    stats_tab_default_fields, spec_stats_tab_default_fields, files_all_columns, spec_files_all_columns,
    files_default_fields, spec_files_default_fields, field_list};
use crate::app::types::ColumnEditorMode;
use crate::app::viewer::App;
use crate::seqs::{stable_order, text_before, stable_order_text, lemma_stable_order_permutation,
    first_index, first_match, lemma_first_match_at, lemma_first_match_none};
use crate::text::{string_eq, string_eq_str};

verus! {

pub open spec fn stats_item_of(c: StatsColumnDefView, enabled: bool) -> StatsColumnEditorItemView {
    StatsColumnEditorItemView { field: c.field, label: c.label, enabled }
}

pub open spec fn stats_item_views(s: Seq<StatsColumnEditorItem>) -> Seq<StatsColumnEditorItemView> {
    s.map_values(|i: StatsColumnEditorItem| i@)
}

/// Whether some column of `cols` has field `f`.
pub open spec fn has_field_in(cols: Seq<StatsColumnDefView>, f: Seq<char>) -> bool {
    exists|k: int| 0 <= k < cols.len() && cols[k].field == f
}

/// The columns of `all` whose field no column of `active` has, in the order of `all`.
pub open spec fn stats_remaining(all: Seq<StatsColumnDefView>, active: Seq<StatsColumnDefView>) -> Seq<StatsColumnDefView>
    decreases all.len(),
{
    if all.len() == 0 {
        seq![]
    } else {
        let prev = stats_remaining(all.drop_last(), active);
        if has_field_in(active, all.last().field) {
            prev
        } else {
            prev.push(all.last())
        }
    }
}

/// The entries of a Stats or Files column editor: the active columns first, enabled and
/// in their order, then the other columns, disabled and in the order of their fields.
pub open spec fn spec_stats_editor_items(active: Seq<StatsColumnDefView>, all: Seq<StatsColumnDefView>) -> Seq<StatsColumnEditorItemView> {
    let rem = stats_remaining(all, active);
    let order = stable_order(rem.len(), text_before(rem.map_values(|c: StatsColumnDefView| c.field), false));
    active.map_values(|c: StatsColumnDefView| stats_item_of(c, true)) + order.map_values(|i: int| stats_item_of(rem[i], false))
}

/// The columns that the enabled entries of an editor select, in the order of the entries.
pub open spec fn spec_apply_stats_items(items: Seq<StatsColumnEditorItemView>, all: Seq<StatsColumnDefView>) -> Seq<StatsColumnDefView>
    decreases items.len(),
{
    if items.len() == 0 {
        seq![]
    } else {
        let prev = spec_apply_stats_items(items.drop_last(), all);
        let it = items.last();
        if it.enabled {
            match spec_find_field(all, it.field) {
                Some(c) => prev.push(c),
                None => prev,
            }
        } else {
            prev
        }
    }
}

/// A column is matched by a saved sort key when its sort key or its field is that key.
pub open spec fn sorts_by(key: Seq<char>) -> spec_fn(StatsColumnDefView) -> bool {
    |c: StatsColumnDefView| c.sort == key || c.field == key
}

fn has_field(cols: &[StatsColumnDef], f: &String) -> (r: bool)
    ensures
        r == has_field_in(stats_views(cols@), f@),
{
    let mut i: usize = 0;
    while i < cols.len()
        invariant
            i <= cols@.len(),
            forall|k: int| 0 <= k < i ==> cols@[k].field@ != f@,
        decreases cols.len() - i,
    {
        if string_eq(&cols[i].field, f) {
            assert(stats_views(cols@)[i as int].field == f@);
            return true;
        }
        i = i + 1;
    }
    assert forall|k: int| 0 <= k < stats_views(cols@).len() implies stats_views(cols@)[k].field != f@ by {
        assert(stats_views(cols@)[k] == cols@[k]@);
    }
    false
}

/// The entries of a Stats or Files column editor for the active columns among all columns.
pub fn build_stats_editor_items(active: &[StatsColumnDef], all: &[StatsColumnDef]) -> (items: Vec<StatsColumnEditorItem>)
    ensures
        stats_item_views(items@) == spec_stats_editor_items(stats_views(active@), stats_views(all@)),
{
    let ghost av = stats_views(active@);
    let ghost allv = stats_views(all@);
    let mut items: Vec<StatsColumnEditorItem> = Vec::new();
    let mut i: usize = 0;
    while i < active.len()
        invariant
            i <= active@.len(),
            av == stats_views(active@),
            stats_item_views(items@) == av.subrange(0, i as int).map_values(|c: StatsColumnDefView| stats_item_of(c, true)),
        decreases active.len() - i,
    {
        let it = StatsColumnEditorItem { field: active[i].field.clone(), label: active[i].label.clone(), enabled: true };
        let ghost prev = items@;
        items.push(it);
        assert(stats_item_views(items@) =~= stats_item_views(prev).push(it@));
        assert(av.subrange(0, i + 1) =~= av.subrange(0, i as int).push(av[i as int]));
        assert(av.subrange(0, i + 1).map_values(|c: StatsColumnDefView| stats_item_of(c, true))
            =~= av.subrange(0, i as int).map_values(|c: StatsColumnDefView| stats_item_of(c, true)).push(stats_item_of(av[i as int], true)));
        i = i + 1;
    }
    assert(av.subrange(0, av.len() as int) =~= av);
    let ghost enabled_part = stats_item_views(items@);
    // the columns that are not active, in the order of `all`
    let mut rem: Vec<usize> = Vec::new();
    let mut j: usize = 0;
    while j < all.len()
        invariant
            j <= all@.len(),
            av == stats_views(active@),
            allv == stats_views(all@),
            rem@.map_values(|k: usize| allv[k as int]) == stats_remaining(allv.subrange(0, j as int), av),
            forall|k: int| 0 <= k < rem@.len() ==> rem@[k] < j,
        decreases all.len() - j,
    {
        let ghost prev = rem@;
        assert(allv.subrange(0, j + 1).drop_last() =~= allv.subrange(0, j as int));
        assert(allv.subrange(0, j + 1).last() == allv[j as int]);
        if !has_field(active, &all[j].field) {
            rem.push(j);
            assert(rem@.map_values(|k: usize| allv[k as int]) =~= prev.map_values(|k: usize| allv[k as int]).push(allv[j as int]));
        }
        j = j + 1;
    }
    assert(allv.subrange(0, allv.len() as int) =~= allv);
    let ghost remv = rem@.map_values(|k: usize| allv[k as int]);
    let mut keys: Vec<String> = Vec::new();
    let mut k: usize = 0;
    while k < rem.len()
        invariant
            k <= rem@.len(),
            allv == stats_views(all@),
            remv == rem@.map_values(|x: usize| allv[x as int]),
            forall|x: int| 0 <= x < rem@.len() ==> rem@[x] < all@.len(),
            keys@.map_values(|s: String| s@) == remv.map_values(|c: StatsColumnDefView| c.field).subrange(0, k as int),
        decreases rem.len() - k,
    {
        let ghost prev = keys@;
        let f = all[rem[k]].field.clone();
        assert(f@ == remv[k as int].field);
        keys.push(f);
        assert(keys@.map_values(|s: String| s@) =~= prev.map_values(|s: String| s@).push(f@));
        assert(remv.map_values(|c: StatsColumnDefView| c.field).subrange(0, k + 1)
            =~= remv.map_values(|c: StatsColumnDefView| c.field).subrange(0, k as int).push(f@));
        k = k + 1;
    }
    assert(remv.map_values(|c: StatsColumnDefView| c.field).subrange(0, rem@.len() as int) =~= remv.map_values(|c: StatsColumnDefView| c.field));
    let order = stable_order_text(&keys, false);
    let ghost ord = stable_order(remv.len(), text_before(remv.map_values(|c: StatsColumnDefView| c.field), false));
    proof {
        lemma_stable_order_permutation(remv.len(), text_before(remv.map_values(|c: StatsColumnDefView| c.field), false));
        assert(order@.map_values(|x: usize| x as int) == ord);
    }
    let mut m: usize = 0;
    while m < order.len()
        invariant
            m <= order@.len(),
            order@.len() == ord.len(),
            ord.len() == remv.len(),
            remv.len() == rem@.len(),
            forall|x: int| 0 <= x < ord.len() ==> 0 <= #[trigger] ord[x] < remv.len(),
            forall|x: int| 0 <= x < order@.len() ==> order@[x] as int == ord[x],
            forall|x: int| 0 <= x < rem@.len() ==> rem@[x] < all@.len(),
            allv == stats_views(all@),
            remv == rem@.map_values(|x: usize| allv[x as int]),
            stats_item_views(items@) == enabled_part + ord.subrange(0, m as int).map_values(|x: int| stats_item_of(remv[x], false)),
        decreases order.len() - m,
    {
        assert(order@[m as int] as int == ord[m as int]);
        assert(ord[m as int] < remv.len());
        let idx = rem[order[m]];
        assert(idx < all@.len());
        let it = StatsColumnEditorItem { field: all[idx].field.clone(), label: all[idx].label.clone(), enabled: false };
        let ghost prev = items@;
        items.push(it);
        assert(it@ == stats_item_of(remv[ord[m as int]], false));
        assert(stats_item_views(items@) =~= stats_item_views(prev).push(it@));
        assert(ord.subrange(0, m + 1).map_values(|x: int| stats_item_of(remv[x], false))
            =~= ord.subrange(0, m as int).map_values(|x: int| stats_item_of(remv[x], false)).push(it@));
        m = m + 1;
    }
    assert(ord.subrange(0, ord.len() as int) =~= ord);
    items
}

/// The columns that the enabled entries of an editor select among all columns.
pub fn apply_stats_items(items: &Vec<StatsColumnEditorItem>, all: &Vec<StatsColumnDef>) -> (cols: Vec<StatsColumnDef>)
    ensures
        stats_views(cols@) == spec_apply_stats_items(stats_item_views(items@), stats_views(all@)),
{
    let ghost iv = stats_item_views(items@);
    let mut cols: Vec<StatsColumnDef> = Vec::new();
    let mut i: usize = 0;
    while i < items.len()
        invariant
            i <= items@.len(),
            iv == stats_item_views(items@),
            stats_views(cols@) == spec_apply_stats_items(iv.subrange(0, i as int), stats_views(all@)),
        decreases items.len() - i,
    {
        let ghost prev = cols@;
        assert(iv.subrange(0, i + 1).drop_last() =~= iv.subrange(0, i as int));
        assert(iv.subrange(0, i + 1).last() == items@[i as int]@);
        if items[i].enabled {
            match find_stats_column(all.as_slice(), items[i].field.as_str()) {
                Some(k) => {
                    cols.push(all[k].duplicate());
                    assert(stats_views(cols@) =~= stats_views(prev).push(all@[k as int]@));
                },
                None => {},
            }
        }
        i = i + 1;
    }
    assert(iv.subrange(0, iv.len() as int) =~= iv);
    cols
}

/// Index of the first column whose sort key or field is `key`.
pub fn find_sort_column(cols: &Vec<StatsColumnDef>, key: &String) -> (r: Option<usize>)
    ensures
        match r {
            Some(i) => i == first_index(stats_views(cols@), sorts_by(key@)) && i < cols@.len(),
            None => first_match(stats_views(cols@), sorts_by(key@)) is None,
        },
{
    let ghost cv = stats_views(cols@);
    let mut i: usize = 0;
    while i < cols.len()
        invariant
            i <= cols@.len(),
            cv == stats_views(cols@),
            forall|k: int| 0 <= k < i ==> !sorts_by(key@)(#[trigger] cv[k]),
        decreases cols.len() - i,
    {
        if string_eq(&cols[i].sort, key) || string_eq(&cols[i].field, key) {
            proof { lemma_first_match_at(cv, sorts_by(key@), i as int); }
            return Some(i);
        }
        i = i + 1;
    }
    proof { lemma_first_match_none(cv, sorts_by(key@)); }
    None
}

pub(crate) fn str_refs(v: &Vec<String>) -> (r: Vec<&str>)
    ensures
        str_views(r@) == string_views(v@),
{
    let mut r: Vec<&str> = Vec::new();
    let mut i: usize = 0;
    while i < v.len()
        invariant
            i <= v@.len(),
            str_views(r@) == string_views(v@).subrange(0, i as int),
        decreases v.len() - i,
    {
        let ghost prev = r@;
        let x = v[i].as_str();
        assert(x@ == v@[i as int]@);
        r.push(x);
        assert(str_views(r@) =~= str_views(prev).push(x@));
        assert(string_views(v@).subrange(0, i + 1) =~= string_views(v@).subrange(0, i as int).push(x@));
        i = i + 1;
    }
    assert(string_views(v@).subrange(0, v@.len() as int) =~= string_views(v@));
    r
}

/// The columns of the current Stats sub-tab: those of its slot, none for a sub-tab
/// without columns.
pub open spec fn active_stats(app: App) -> Seq<StatsColumnDefView> {
    stats_views(app.viewer.stats_slot_columns())
}

/// The sort column and direction after applying a saved layout with sort key `key` to
/// the columns `cols`: the first column that the key matches, when the key is not empty.
pub open spec fn sort_after(cols: Seq<StatsColumnDefView>, key: Seq<char>, dir: Seq<char>, column: usize, desc: bool) -> (usize, bool) {
    if key.len() > 0 && first_match(cols, sorts_by(key)) is Some {
        (first_index(cols, sorts_by(key)) as usize, dir == "desc"@)
    } else {
        (column, desc)
    }
}

impl App {
    /// Fills the Stats column editor: the active columns first, enabled and in order, then
    /// the other columns of the sub-tab, disabled and in the order of their fields.
    pub fn vr_stats_build_column_editor(&mut self)
        requires
            old(self).wf(),
        ensures
            stats_item_views(final(self).viewer.stats_column_editor_items@)
                == spec_stats_editor_items(active_stats(*old(self)), spec_stats_tab_all_columns(old(self).viewer.stats_tab)),
            final(self).viewer.stats_column_editor_filter@ == Seq::<char>::empty(),
            *final(self) == (App {
                viewer: crate::app::viewer::ViewerState {
                    stats_column_editor_items: final(self).viewer.stats_column_editor_items,
                    stats_column_editor_selected: 0,
                    stats_column_editor_mode: ColumnEditorMode::Browse,
                    stats_column_editor_filter: final(self).viewer.stats_column_editor_filter,
                    stats_column_editor_filter_cursor: 0,
                    ..old(self).viewer
                },
                ..*old(self)
            }),
    {
        let all = stats_tab_all_columns(self.viewer.stats_tab);
        let items = build_stats_editor_items(self.vr_stats_active_columns(), &all);
        self.viewer.stats_column_editor_items = items;
        self.viewer.stats_column_editor_selected = 0;
        self.viewer.stats_column_editor_mode = ColumnEditorMode::Browse;
        self.viewer.stats_column_editor_filter = String::new();
        self.viewer.stats_column_editor_filter_cursor = 0;
    }

    /// Applies the Stats column editor to the current sub-tab: its columns become the
    /// enabled entries, in order, and sorting restarts at the first column. Nothing
    /// changes when no entry is enabled, nor on a sub-tab without columns.
    pub fn vr_stats_apply_column_editor(&mut self)
        requires
            old(self).wf(),
        ensures
            final(self).wf(),
            ({
                let cols = spec_apply_stats_items(
                    stats_item_views(old(self).viewer.stats_column_editor_items@),
                    spec_stats_tab_all_columns(old(self).viewer.stats_tab),
                );
                match old(self).viewer.stats_tab.spec_col_index() {
                    None => *final(self) == *old(self),
                    Some(idx) => if cols.len() == 0 {
                        *final(self) == *old(self)
                    } else {
                        &&& active_stats(*final(self)) == cols
                        &&& final(self).viewer.stats_columns@ == old(self).viewer.stats_columns@.update(idx as int, final(self).viewer.stats_columns@[idx as int])
                        &&& *final(self) == (App {
                            viewer: crate::app::viewer::ViewerState {
                                stats_columns: final(self).viewer.stats_columns,
                                stats_sort_column: 0,
                                ..old(self).viewer
                            },
                            ..*old(self)
                        })
                    },
                }
            }),
    {
        match self.viewer.stats_tab.col_index() {
            None => {},
            Some(idx) => {
                let all = stats_tab_all_columns(self.viewer.stats_tab);
                let cols = apply_stats_items(&self.viewer.stats_column_editor_items, &all);
                if cols.len() > 0 {
                    self.viewer.stats_columns.set(idx, cols);
                    self.viewer.stats_sort_column = 0;
                }
            },
        }
    }

    /// Resets the current Stats sub-tab to its default columns and sorts by the first;
    /// a sub-tab without columns only has its sorting reset.
    pub fn vr_stats_reset_default_columns(&mut self)
        requires
            old(self).wf(),
        ensures
            final(self).wf(),
            match old(self).viewer.stats_tab.spec_col_index() {
                None => *final(self) == (App {
                    viewer: crate::app::viewer::ViewerState { stats_sort_column: 0, ..old(self).viewer },
                    ..*old(self)
                }),
                Some(idx) => {
                    &&& active_stats(*final(self)) == spec_columns_from_fields(
                        spec_stats_tab_default_fields(old(self).viewer.stats_tab),
                        spec_stats_tab_all_columns(old(self).viewer.stats_tab),
                    )
                    &&& final(self).viewer.stats_columns@ == old(self).viewer.stats_columns@.update(idx as int, final(self).viewer.stats_columns@[idx as int])
                    &&& *final(self) == (App {
                        viewer: crate::app::viewer::ViewerState {
                            stats_columns: final(self).viewer.stats_columns,
                            stats_sort_column: 0,
                            ..old(self).viewer
                        },
                        ..*old(self)
                    })
                },
            },
    {
        match self.viewer.stats_tab.col_index() {
            None => {},
            Some(idx) => {
                let defaults = stats_tab_default_fields(self.viewer.stats_tab);
                let all = stats_tab_all_columns(self.viewer.stats_tab);
                let cols = stats_columns_from_fields(defaults.as_slice(), all.as_slice());
                self.viewer.stats_columns.set(idx, cols);
            },
        }
        self.viewer.stats_sort_column = 0;
    }

    /// Applies a saved layout to the current Stats sub-tab: its columns become those that
    /// the layout names, and the layout's sort key, when a column has it, becomes the sort
    /// column with the layout's direction. Nothing changes when the layout names no column,
    /// nor on a sub-tab without columns.
    pub fn vr_stats_apply_shareable(&mut self, shareable: &SavedShareable)
        requires
            old(self).wf(),
        ensures
            final(self).wf(),
            ({
                let cols = spec_columns_from_fields(string_views(shareable.columns@), spec_stats_tab_all_columns(old(self).viewer.stats_tab));
                let sort = sort_after(cols, shareable.sort_field@, shareable.sort_dir@,
                    old(self).viewer.stats_sort_column, old(self).viewer.stats_sort_desc);
                match old(self).viewer.stats_tab.spec_col_index() {
                    None => *final(self) == *old(self),
                    Some(idx) => if cols.len() == 0 {
                        *final(self) == *old(self)
                    } else {
                        &&& active_stats(*final(self)) == cols
                        &&& final(self).viewer.stats_columns@ == old(self).viewer.stats_columns@.update(idx as int, final(self).viewer.stats_columns@[idx as int])
                        &&& *final(self) == (App {
                            viewer: crate::app::viewer::ViewerState {
                                stats_columns: final(self).viewer.stats_columns,
                                stats_sort_column: sort.0,
                                stats_sort_desc: sort.1,
                                ..old(self).viewer
                            },
                            ..*old(self)
                        })
                    },
                }
            }),
    {
        let idx = match self.viewer.stats_tab.col_index() {
            None => return,
            Some(i) => i,
        };
        let all = stats_tab_all_columns(self.viewer.stats_tab);
        let refs = str_refs(&shareable.columns);
        let cols = stats_columns_from_fields(refs.as_slice(), all.as_slice());
        if cols.len() > 0 {
            let found = if shareable.sort_field.as_str().is_empty() { None } else { find_sort_column(&cols, &shareable.sort_field) };
            proof {
                crate::seqs::lemma_first_index_bounds(stats_views(cols@), sorts_by(shareable.sort_field@));
            }
            self.viewer.stats_columns.set(idx, cols);
            match found {
                Some(pos) => {
                    self.viewer.stats_sort_column = pos;
                    self.viewer.stats_sort_desc = string_eq_str(&shareable.sort_dir, "desc");
                },
                None => {},
            }
        }
    }

    /// Fills the Files column editor like the Stats one, from the Files columns.
    pub fn vr_files_build_column_editor(&mut self)
        ensures
            stats_item_views(final(self).viewer.files_column_editor_items@)
                == spec_stats_editor_items(stats_views(old(self).viewer.files_columns@), spec_files_all_columns()),
            final(self).viewer.files_column_editor_filter@ == Seq::<char>::empty(),
            *final(self) == (App {
                viewer: crate::app::viewer::ViewerState {
                    files_column_editor_items: final(self).viewer.files_column_editor_items,
                    files_column_editor_selected: 0,
                    files_column_editor_mode: ColumnEditorMode::Browse,
                    files_column_editor_filter: final(self).viewer.files_column_editor_filter,
                    files_column_editor_filter_cursor: 0,
                    ..old(self).viewer
                },
                ..*old(self)
            }),
    {
        let all = files_all_columns();
        let items = build_stats_editor_items(&self.viewer.files_columns, &all);
        self.viewer.files_column_editor_items = items;
        self.viewer.files_column_editor_selected = 0;
        self.viewer.files_column_editor_mode = ColumnEditorMode::Browse;
        self.viewer.files_column_editor_filter = String::new();
        self.viewer.files_column_editor_filter_cursor = 0;
    }

    /// Applies the Files column editor; nothing changes when no entry is enabled.
    pub fn vr_files_apply_column_editor(&mut self)
        ensures
            ({
                let cols = spec_apply_stats_items(stats_item_views(old(self).viewer.files_column_editor_items@), spec_files_all_columns());
                if cols.len() == 0 {
                    *final(self) == *old(self)
                } else {
                    &&& stats_views(final(self).viewer.files_columns@) == cols
                    &&& *final(self) == (App {
                        viewer: crate::app::viewer::ViewerState {
                            files_columns: final(self).viewer.files_columns,
                            files_sort_column: 0,
                            ..old(self).viewer
                        },
                        ..*old(self)
                    })
                }
            }),
    {
        let all = files_all_columns();
        let cols = apply_stats_items(&self.viewer.files_column_editor_items, &all);
        if cols.len() > 0 {
            self.viewer.files_columns = cols;
            self.viewer.files_sort_column = 0;
        }
    }

    /// Resets the Files tab to its default columns and sorts by the first.
    pub fn vr_files_reset_default_columns(&mut self)
        ensures
            stats_views(final(self).viewer.files_columns@) == spec_columns_from_fields(spec_files_default_fields(), spec_files_all_columns()),
            *final(self) == (App {
                viewer: crate::app::viewer::ViewerState {
                    files_columns: final(self).viewer.files_columns,
                    files_sort_column: 0,
                    ..old(self).viewer
                },
                ..*old(self)
            }),
    {
        let defaults = files_default_fields();
        let all = files_all_columns();
        self.viewer.files_columns = stats_columns_from_fields(defaults.as_slice(), all.as_slice());
        self.viewer.files_sort_column = 0;
    }

    /// Applies a saved layout to the Files tab, as for a Stats sub-tab.
    pub fn vr_files_apply_shareable(&mut self, shareable: &SavedShareable)
        ensures
            ({
                let cols = spec_columns_from_fields(string_views(shareable.columns@), spec_files_all_columns());
                let sort = sort_after(cols, shareable.sort_field@, shareable.sort_dir@,
                    old(self).viewer.files_sort_column, old(self).viewer.files_sort_desc);
                if cols.len() == 0 {
                    *final(self) == *old(self)
                } else {
                    &&& stats_views(final(self).viewer.files_columns@) == cols
                    &&& *final(self) == (App {
                        viewer: crate::app::viewer::ViewerState {
                            files_columns: final(self).viewer.files_columns,
                            files_sort_column: sort.0,
                            files_sort_desc: sort.1,
                            ..old(self).viewer
                        },
                        ..*old(self)
                    })
                }
            }),
    {
        let all = files_all_columns();
        let refs = str_refs(&shareable.columns);
        let cols = stats_columns_from_fields(refs.as_slice(), all.as_slice());
        if cols.len() > 0 {
            let found = if shareable.sort_field.as_str().is_empty() { None } else { find_sort_column(&cols, &shareable.sort_field) };
            proof {
                crate::seqs::lemma_first_index_bounds(stats_views(cols@), sorts_by(shareable.sort_field@));
            }
            self.viewer.files_columns = cols;
            match found {
                Some(pos) => {
                    self.viewer.files_sort_column = pos;
                    self.viewer.files_sort_desc = string_eq_str(&shareable.sort_dir, "desc");
                },
                None => {},
            }
        }
    }
}

proof fn lemma_apply_concat(a: Seq<StatsColumnEditorItemView>, b: Seq<StatsColumnEditorItemView>, all: Seq<StatsColumnDefView>)
    ensures
        spec_apply_stats_items(a + b, all) == spec_apply_stats_items(a, all) + spec_apply_stats_items(b, all),
    decreases b.len(),
{
    if b.len() == 0 {
        assert(a + b =~= a);
        assert(spec_apply_stats_items(a, all) + seq![] =~= spec_apply_stats_items(a, all));
    } else {
        lemma_apply_concat(a, b.drop_last(), all);
        assert((a + b).drop_last() =~= a + b.drop_last());
        assert((a + b).last() == b.last());
        let x = spec_apply_stats_items(a, all);
        let y = spec_apply_stats_items(b.drop_last(), all);
        if b.last().enabled {
            match spec_find_field(all, b.last().field) {
                Some(c) => assert((x + y).push(c) =~= x + y.push(c)),
                None => {},
            }
        }
    }
}

proof fn lemma_apply_disabled(b: Seq<StatsColumnEditorItemView>, all: Seq<StatsColumnDefView>)
    requires
        forall|i: int| 0 <= i < b.len() ==> !(#[trigger] b[i]).enabled,
    ensures
        spec_apply_stats_items(b, all) == Seq::<StatsColumnDefView>::empty(),
    decreases b.len(),
{
    if b.len() > 0 {
        lemma_apply_disabled(b.drop_last(), all);
        assert(!b[b.len() - 1].enabled);
    }
}

proof fn lemma_apply_enabled(active: Seq<StatsColumnDefView>, all: Seq<StatsColumnDefView>)
    requires
        forall|i: int| 0 <= i < active.len() ==> spec_find_field(all, (#[trigger] active[i]).field) == Some(active[i]),
    ensures
        spec_apply_stats_items(active.map_values(|c: StatsColumnDefView| stats_item_of(c, true)), all) == active,
    decreases active.len(),
{
    if active.len() > 0 {
        let items = active.map_values(|c: StatsColumnDefView| stats_item_of(c, true));
        assert(items.drop_last() =~= active.drop_last().map_values(|c: StatsColumnDefView| stats_item_of(c, true)));
        assert forall|i: int| 0 <= i < active.drop_last().len() implies
            spec_find_field(all, (#[trigger] active.drop_last()[i]).field) == Some(active.drop_last()[i]) by {
            assert(active.drop_last()[i] == active[i]);
        }
        lemma_apply_enabled(active.drop_last(), all);
        assert(active[active.len() - 1] == active.last());
        assert(active.drop_last().push(active.last()) =~= active);
    }
}

/// Opening a Stats or Files column editor and applying it unchanged gives back the
/// columns, when each column is the sub-tab's first column with its field.
pub proof fn lemma_stats_editor_round_trip(active: Seq<StatsColumnDefView>, all: Seq<StatsColumnDefView>)
    requires
        forall|i: int| 0 <= i < active.len() ==> spec_find_field(all, (#[trigger] active[i]).field) == Some(active[i]),
    ensures
        spec_apply_stats_items(spec_stats_editor_items(active, all), all) == active,
{
    let rem = stats_remaining(all, active);
    let order = stable_order(rem.len(), text_before(rem.map_values(|c: StatsColumnDefView| c.field), false));
    let a = active.map_values(|c: StatsColumnDefView| stats_item_of(c, true));
    let b = order.map_values(|i: int| stats_item_of(rem[i], false));
    assert(spec_stats_editor_items(active, all) == a + b);
    lemma_apply_concat(a, b, all);
    lemma_apply_disabled(b, all);
    lemma_apply_enabled(active, all);
    assert(active + Seq::<StatsColumnDefView>::empty() =~= active);
}

proof fn lemma_find_field_has(all: Seq<StatsColumnDefView>, name: Seq<char>)
    ensures
        spec_find_field(all, name) is Some ==> spec_find_field(all, name)->0.field == name,
    decreases all.len(),
{
    if all.len() > 0 && all[0].field != name {
        lemma_find_field_has(all.drop_first(), name);
    }
}

proof fn lemma_apply_enabled_fields(active: Seq<StatsColumnDefView>, all: Seq<StatsColumnDefView>)
    requires
        forall|i: int| 0 <= i < active.len() ==> spec_find_field(all, (#[trigger] active[i]).field) is Some,
    ensures
        field_list(spec_apply_stats_items(active.map_values(|c: StatsColumnDefView| stats_item_of(c, true)), all))
            == field_list(active),
    decreases active.len(),
{
    if active.len() > 0 {
        let items = active.map_values(|c: StatsColumnDefView| stats_item_of(c, true));
        let prev = active.drop_last();
        assert(items.drop_last() =~= prev.map_values(|c: StatsColumnDefView| stats_item_of(c, true)));
        assert forall|i: int| 0 <= i < prev.len() implies spec_find_field(all, (#[trigger] prev[i]).field) is Some by {
            assert(prev[i] == active[i]);
        }
        lemma_apply_enabled_fields(prev, all);
        let last = active[active.len() - 1];
        assert(items.last() == stats_item_of(last, true));
        lemma_find_field_has(all, last.field);
        let r = spec_apply_stats_items(prev.map_values(|c: StatsColumnDefView| stats_item_of(c, true)), all);
        let c = spec_find_field(all, last.field)->0;
        assert(field_list(r.push(c)) =~= field_list(r).push(c.field));
        assert(field_list(active) =~= field_list(prev).push(last.field));
    }
}

/// Opening a Stats or Files column editor and applying it unchanged keeps the columns'
/// fields in their order, whenever each field names a column of the sub-tab (or of the
/// Files tab).
pub proof fn lemma_stats_editor_keeps_fields(active: Seq<StatsColumnDefView>, all: Seq<StatsColumnDefView>)
    requires
        forall|i: int| 0 <= i < active.len() ==> spec_find_field(all, (#[trigger] active[i]).field) is Some,
    ensures
        field_list(spec_apply_stats_items(spec_stats_editor_items(active, all), all)) == field_list(active),
{
    let rem = stats_remaining(all, active);
    let order = stable_order(rem.len(), text_before(rem.map_values(|c: StatsColumnDefView| c.field), false));
    let a = active.map_values(|c: StatsColumnDefView| stats_item_of(c, true));
    let b = order.map_values(|i: int| stats_item_of(rem[i], false));
    assert(spec_stats_editor_items(active, all) == a + b);
    lemma_apply_concat(a, b, all);
    lemma_apply_disabled(b, all);
    lemma_apply_enabled_fields(active, all);
    let x = spec_apply_stats_items(a, all);
    assert(x + Seq::<StatsColumnDefView>::empty() =~= x);
}

/// The Files column editor, built from non-empty Files columns whose fields are all
/// Files columns and applied unchanged, keeps the same fields in the same order; as
/// the applied columns are not empty, sorting restarts at the first column.
pub proof fn lemma_files_editor_round_trip(app: App)
    requires
        app.viewer.files_columns@.len() > 0,
        forall|i: int|
            0 <= i < app.viewer.files_columns@.len() ==> spec_find_field(
                spec_files_all_columns(),
                (#[trigger] app.viewer.files_columns@[i])@.field,
            ) is Some,
    ensures
        ({
            let cols = spec_apply_stats_items(
                spec_stats_editor_items(stats_views(app.viewer.files_columns@), spec_files_all_columns()),
                spec_files_all_columns(),
            );
            &&& cols.len() > 0
            &&& field_list(cols) == field_list(stats_views(app.viewer.files_columns@))
        }),
{
    let active = stats_views(app.viewer.files_columns@);
    assert forall|i: int| 0 <= i < active.len() implies spec_find_field(spec_files_all_columns(), (#[trigger] active[i]).field) is Some by {
        assert(active[i] == app.viewer.files_columns@[i]@);
    }
    lemma_stats_editor_keeps_fields(active, spec_files_all_columns());
    let cols = spec_apply_stats_items(spec_stats_editor_items(active, spec_files_all_columns()), spec_files_all_columns());
    assert(field_list(cols).len() == field_list(active).len());
}

} // verus!
