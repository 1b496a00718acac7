//! The viewer's state and what the viewer does with it: the sessions columns and
//! their editor, saved layouts, the columns and layouts of the Stats sub-tabs and
//! of the Files tab, the summary table and the field selector.
use vstd::prelude::*;
use crate::app::columns::{ColumnDef, ColumnDefView, ColumnEditorItem, SavedLayout, StatsColumnDef, StatsColumnDefView,
    StatsColumnEditorItem, SavedShareable, column_views, stats_views};
use crate::app::types::{ColumnEditorMode, SessionView, ShardsShow, SummarySort, StatsTab, StatsView, Tab};
use crate::app::wise::{WiseState, WsSourceStats, WsTypeStats};
use crate::json::JsonValue;

verus! {

/// A field of the sessions index, as the viewer describes it.
pub struct ArkimeField {
    pub db_field: String,
    pub exp: String,
    pub friendly_name: String,
    pub field_type: String,
    /// whether the field is offered to the user
    pub visible: bool,
}

pub struct ArkimeFieldView {
    pub db_field: Seq<char>,
    pub exp: Seq<char>,
    pub friendly_name: Seq<char>,
    pub field_type: Seq<char>,
    pub visible: bool,
}

impl View for ArkimeField {
    type V = ArkimeFieldView;

    open spec fn view(&self) -> ArkimeFieldView {
        ArkimeFieldView {
            db_field: self.db_field@,
            exp: self.exp@,
            friendly_name: self.friendly_name@,
            field_type: self.field_type@,
            visible: self.visible,
        }
    }
}

impl ArkimeField {
    pub fn is_visible(&self) -> (b: bool)
        ensures
            b == self.visible,
    {
        self.visible
    }
}

pub open spec fn arkime_views(s: Seq<ArkimeField>) -> Seq<ArkimeFieldView> {
    s.map_values(|f: ArkimeField| f@)
}

pub open spec fn pair_views(s: Seq<(String, String)>) -> Seq<(Seq<char>, Seq<char>)> {
    s.map_values(|p: (String, String)| (p.0@, p.1@))
}

/// One row of the summary of a field: a value and its totals.
pub struct SummaryItem {
    pub item: JsonValue,
    pub sessions: u64,
    pub packets: u64,
    pub bytes: u64,
}

/// A Stats, Files or shards item opened in the detail pane.
pub struct StatsDetail {
    pub data: JsonValue,
    pub scroll: u16,
    pub filter: String,
    pub filter_cursor: usize,
}

/// A session opened in the detail pane.
pub struct SessionDetail {
    pub data: JsonValue,
    pub scroll: u16,
    pub selected: usize,
    pub total_rows: usize,
    pub filter: String,
    pub filter_cursor: usize,
}

/// The state of the viewer's tabs.
pub struct ViewerState {
    // sessions table
    pub sessions: Vec<JsonValue>,
    pub sessions_total: u64,
    pub sessions_filtered: u64,
    pub selected_session: usize,
    pub page_start: u64,
    // sessions columns
    pub columns: Vec<ColumnDef>,
    pub session_fields: Vec<String>,
    pub sort_column: usize,
    pub sort_desc: bool,
    pub all_fields: Vec<ArkimeField>,
    /// database field name to friendly name
    pub field_friendly_map: Vec<(String, String)>,
    pub field_filter: String,
    // sessions column editor
    pub show_column_editor: bool,
    pub column_editor_available: Vec<ColumnEditorItem>,
    pub column_editor_selected: usize,
    pub column_editor_mode: ColumnEditorMode,
    pub column_editor_filter: String,
    pub column_editor_filter_cursor: usize,
    pub saved_layouts: Vec<SavedLayout>,
    // session detail
    pub session_detail: Option<SessionDetail>,
    pub session_view: SessionView,
    // summary
    pub summary_field: String,
    pub pending_summary_fetch: bool,
    pub summary_data: Vec<SummaryItem>,
    pub summary_sort: SummarySort,
    pub summary_sort_desc: bool,
    pub summary_selected: usize,
    pub summary_table_selected: Option<usize>,
    // stats
    pub stats_tab: StatsTab,
    /// columns of each column-based sub-tab, by `StatsTab::col_index`
    pub stats_columns: Vec<Vec<StatsColumnDef>>,
    /// whether each column-based sub-tab's saved state was loaded, by `StatsTab::col_index`
    pub stats_state_loaded: Vec<bool>,
    pub stats_sort_column: usize,
    pub stats_sort_desc: bool,
    pub stats_column_editor_items: Vec<StatsColumnEditorItem>,
    pub stats_column_editor_selected: usize,
    pub stats_column_editor_mode: ColumnEditorMode,
    pub stats_column_editor_filter: String,
    pub stats_column_editor_filter_cursor: usize,
    pub stats_saved_shareables: Vec<SavedShareable>,
    pub stats_data: Vec<JsonValue>,
    pub stats_total: u64,
    pub stats_filtered: u64,
    pub stats_selected: usize,
    pub stats_detail: Option<StatsDetail>,
    pub stats_view: StatsView,
    // files
    pub files_columns: Vec<StatsColumnDef>,
    pub files_state_loaded: bool,
    pub files_sort_column: usize,
    pub files_sort_desc: bool,
    pub files_column_editor_items: Vec<StatsColumnEditorItem>,
    pub files_column_editor_selected: usize,
    pub files_column_editor_mode: ColumnEditorMode,
    pub files_column_editor_filter: String,
    pub files_column_editor_filter_cursor: usize,
    pub files_saved_shareables: Vec<SavedShareable>,
    pub files_data: Vec<JsonValue>,
    pub files_total: u64,
    pub files_filtered: u64,
    pub files_selected: usize,
    pub files_detail: Option<StatsDetail>,
    pub files_view: StatsView,
    // DB shards
    pub shards_show: ShardsShow,
    /// node names, "Unassigned" first
    pub shards_nodes: Vec<String>,
    pub shards_indices: Vec<String>,
    pub shards_data: JsonValue,
    pub shards_selected_row: usize,
    pub shards_loaded: bool,
    pub shards_hscroll: usize,
    pub shards_detail: Option<StatsDetail>,
    pub shards_sub_detail: Option<StatsDetail>,
}

impl ViewerState {
    /// Every column-based sub-tab of the Stats tab has its slot of columns and its
    /// loaded flag.
    pub open spec fn wf(&self) -> bool {
        &&& self.stats_columns@.len() == 5
        &&& self.stats_state_loaded@.len() == 5
    }

    /// The columns of the current Stats sub-tab: those of its slot; none for the
    /// sub-tabs without columns.
    pub open spec fn stats_slot_columns(&self) -> Seq<StatsColumnDef> {
        match self.stats_tab.spec_col_index() {
            Some(i) => self.stats_columns@[i as int]@,
            None => Seq::empty(),
        }
    }
}

/// The state of the application that the verified operations read and change.
pub struct App {
    pub viewer: ViewerState,
    /// the current user, as the viewer describes it
    pub user: JsonValue,
    pub show_loading: bool,
    pub status_msg: String,
    pub active_tab: Tab,
    pub wise: WiseState,
}

/// The index of the sort column after the columns changed to `n` columns.
pub open spec fn synced_sort_column(sort_column: usize, n: nat) -> usize {
    if sort_column >= n {
        0
    } else {
        sort_column
    }
}

pub open spec fn column_fields(cols: Seq<ColumnDefView>) -> Seq<Seq<char>> {
    cols.map_values(|c: ColumnDefView| c.field)
}

pub open spec fn stats_sort_or(cols: Seq<StatsColumnDefView>, i: usize, fallback: Seq<char>) -> Seq<char> {
    if i < cols.len() {
        cols[i as int].sort
    } else {
        fallback
    }
}

impl App {
    pub open spec fn wf(&self) -> bool {
        self.viewer.wf()
    }

    /// Rebuilds the session fields from the columns and keeps the sort column in range.
    pub fn vr_sync_session_fields(&mut self)
        ensures
            final(self).viewer.session_fields@.map_values(|s: String| s@)
                == column_fields(column_views(old(self).viewer.columns@)),
            *final(self) == (App {
                viewer: ViewerState {
                    session_fields: final(self).viewer.session_fields,
                    sort_column: synced_sort_column(old(self).viewer.sort_column, old(self).viewer.columns@.len()),
                    ..old(self).viewer
                },
                ..*old(self)
            }),
    {
        let mut fields: Vec<String> = Vec::new();
        let mut i: usize = 0;
        while i < self.viewer.columns.len()
            invariant
                i <= self.viewer.columns@.len(),
                fields@.map_values(|s: String| s@) == column_fields(column_views(self.viewer.columns@)).subrange(0, i as int),
            decreases self.viewer.columns.len() - i,
        {
            let ghost prev = fields@;
            let f = self.viewer.columns[i].field.clone();
            assert(f@ == self.viewer.columns@[i as int].field@);
            fields.push(f);
            assert(fields@ == prev.push(f));
            assert(fields@.map_values(|s: String| s@) =~= prev.map_values(|s: String| s@).push(f@));
            assert(column_fields(column_views(self.viewer.columns@)).subrange(0, i + 1)
                =~= column_fields(column_views(self.viewer.columns@)).subrange(0, i as int).push(f@));
            i = i + 1;
        }
        assert(column_fields(column_views(self.viewer.columns@)).subrange(0, i as int) =~= column_fields(column_views(self.viewer.columns@)));
        self.viewer.session_fields = fields;
        if self.viewer.sort_column >= self.viewer.columns.len() {
            self.viewer.sort_column = 0;
        }
    }

    /// Whether the current user may remove tags: the user's `removeEnabled` when it is a boolean.
    pub fn vr_remove_enabled(&self) -> (b: bool)
        ensures
            b == (match self.user@.get("removeEnabled"@) {
                Some(v) => v.as_bool() == Some(true),
                None => false,
            }),
    {
        match self.user.get("removeEnabled") {
            Some(v) => match v.as_bool() {
                Some(b) => b,
                None => false,
            },
            None => false,
        }
    }

    /// The columns of the current Stats sub-tab.
    pub fn vr_stats_active_columns(&self) -> (cols: &[StatsColumnDef])
        requires
            self.wf(),
        ensures
            cols@ == self.viewer.stats_slot_columns(),
    {
        match self.viewer.stats_tab.col_index() {
            Some(idx) => self.viewer.stats_columns[idx].as_slice(),
            None => &[],
        }
    }

    /// The sort key of the current Stats sub-tab: that of the sort column, or `nodeName`
    /// when the sort column is out of range.
    pub fn vr_stats_sort_field(&self) -> (s: &str)
        requires
            self.wf(),
        ensures
            s@ == stats_sort_or(
                stats_views(self.viewer.stats_slot_columns()),
                self.viewer.stats_sort_column,
                "nodeName"@,
            ),
    {
        let cols = self.vr_stats_active_columns();
        if self.viewer.stats_sort_column < cols.len() {
            cols[self.viewer.stats_sort_column].sort.as_str()
        } else {
            "nodeName"
        }
    }

    /// The sort key of the Files tab: that of the sort column, or `num`.
    pub fn vr_files_sort_field(&self) -> (s: &str)
        ensures
            s@ == stats_sort_or(stats_views(self.viewer.files_columns@), self.viewer.files_sort_column, "num"@),
    {
        if self.viewer.files_sort_column < self.viewer.files_columns.len() {
            self.viewer.files_columns[self.viewer.files_sort_column].sort.as_str()
        } else {
            "num"
        }
    }

    /// Opens the selected file in the detail pane; nothing happens when no file is selected.
    pub fn vr_open_files_detail(&mut self)
        ensures
            old(self).viewer.files_selected < old(self).viewer.files_data@.len() ==> {
                &&& final(self).viewer.files_detail is Some
                &&& final(self).viewer.files_detail->0.data@ == old(self).viewer.files_data@[old(self).viewer.files_selected as int]@
                &&& final(self).viewer.files_detail->0.scroll == 0
                &&& final(self).viewer.files_detail->0.filter@ == Seq::<char>::empty()
                &&& final(self).viewer.files_detail->0.filter_cursor == 0
                &&& *final(self) == (App {
                    viewer: ViewerState {
                        files_detail: final(self).viewer.files_detail,
                        files_view: StatsView::Detail,
                        ..old(self).viewer
                    },
                    ..*old(self)
                })
            },
            old(self).viewer.files_selected >= old(self).viewer.files_data@.len() ==> *final(self) == *old(self),
    {
        if self.viewer.files_selected < self.viewer.files_data.len() {
            let data = self.viewer.files_data[self.viewer.files_selected].duplicate();
            self.viewer.files_detail = Some(StatsDetail { data, scroll: 0, filter: String::new(), filter_cursor: 0 });
            self.viewer.files_view = StatsView::Detail;
        }
    }

    /// Opens the selected Stats item in the detail pane; nothing happens when no item is selected.
    pub fn vr_open_stats_detail(&mut self)
        ensures
            old(self).viewer.stats_selected < old(self).viewer.stats_data@.len() ==> {
                &&& final(self).viewer.stats_detail is Some
                &&& final(self).viewer.stats_detail->0.data@ == old(self).viewer.stats_data@[old(self).viewer.stats_selected as int]@
                &&& final(self).viewer.stats_detail->0.scroll == 0
                &&& final(self).viewer.stats_detail->0.filter@ == Seq::<char>::empty()
                &&& final(self).viewer.stats_detail->0.filter_cursor == 0
                &&& *final(self) == (App {
                    viewer: ViewerState {
                        stats_detail: final(self).viewer.stats_detail,
                        stats_view: StatsView::Detail,
                        ..old(self).viewer
                    },
                    ..*old(self)
                })
            },
            old(self).viewer.stats_selected >= old(self).viewer.stats_data@.len() ==> *final(self) == *old(self),
    {
        if self.viewer.stats_selected < self.viewer.stats_data.len() {
            let data = self.viewer.stats_data[self.viewer.stats_selected].duplicate();
            self.viewer.stats_detail = Some(StatsDetail { data, scroll: 0, filter: String::new(), filter_cursor: 0 });
            self.viewer.stats_view = StatsView::Detail;
        }
    }

    /// Asks for the summary of the chosen field to be fetched, showing the loading
    /// popup; nothing happens while no field is chosen.
    pub fn vr_request_summary_fetch(&mut self)
        ensures
            old(self).viewer.summary_field@.len() == 0 ==> *final(self) == *old(self),
            old(self).viewer.summary_field@.len() > 0 ==> *final(self) == (App {
                show_loading: true,
                viewer: ViewerState { pending_summary_fetch: true, ..old(self).viewer },
                ..*old(self)
            }),
    {
        if self.viewer.summary_field.as_str().is_empty() {
            return;
        }
        self.show_loading = true;
        self.viewer.pending_summary_fetch = true;
    }

    /// The sources of the fetched WISE stats, in order; none before a fetch.
    pub fn ws_filtered_sources(&self) -> (r: Vec<&WsSourceStats>)
        ensures
            match self.wise.stats {
                None => r@.len() == 0,
                Some(st) => r@.len() == st.sources@.len()
                    && forall|i: int| 0 <= i < r@.len() ==> *r@[i] == st.sources@[i],
            },
    {
        self.wise.ws_filtered_sources()
    }

    /// The types of the fetched WISE stats, in order; none before a fetch.
    pub fn ws_filtered_types(&self) -> (r: Vec<&WsTypeStats>)
        ensures
            match self.wise.stats {
                None => r@.len() == 0,
                Some(st) => r@.len() == st.types@.len()
                    && forall|i: int| 0 <= i < r@.len() ==> *r@[i] == st.types@[i],
            },
    {
        self.wise.ws_filtered_types()
    }
}

} // verus!
