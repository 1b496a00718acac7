//! The decisions of the main loop: the window title, which views refresh on their
//! own, what a key press does before the screen handles it, and what a finished
//! summary request leaves behind.
use vstd::prelude::*;
use crate::app::session_columns::{summary_views, spec_sorted_summary};
use crate::app::types::{AppMode, InputMode, Tab};
use crate::app::viewer::{App, ViewerState, SummaryItem};
use crate::text::str_to_string;
use crate::ui::format::{number_text, spec_digits};
use crate::ui::json_lines::append_str;

verus! {

pub open spec fn spec_window_title(mode: AppMode, title_name: Seq<char>) -> Seq<char> {
    match mode {
        AppMode::Viewer => "Alkeme - Viewer - "@ + title_name,
        AppMode::Cont3xt => "Alkeme - Cont3xt"@,
        AppMode::Wise => "Alkeme - WISE"@,
        AppMode::Parliament => "Alkeme - Parliament"@,
    }
}

/// The title of the terminal window in each mode; the viewer's names the server.
pub fn window_title(mode: AppMode, title_name: &str) -> (r: String)
    ensures
        r@ == spec_window_title(mode, title_name@),
{
    match mode {
        AppMode::Viewer => {
            let mut t = str_to_string("Alkeme - Viewer - ");
            append_str(&mut t, title_name);
            t
        },
        AppMode::Cont3xt => str_to_string("Alkeme - Cont3xt"),
        AppMode::Wise => str_to_string("Alkeme - WISE"),
        AppMode::Parliament => str_to_string("Alkeme - Parliament"),
    }
}

/// Seconds between refreshes of the views that refresh on their own.
pub const REFRESH_SECS: u64 = 30;

/// The views due for a refresh of their own.
pub struct RefreshDue {
    pub stats: bool,
    pub parliament: bool,
    pub parliament_issues: bool,
    pub wise: bool,
}

/// Which views refresh now, from the seconds since each last refreshed: the Stats
/// tab of the viewer, the Parliament data (with the issues on the Issues tab) and the
/// WISE statistics, each every 30 seconds while it is shown and no input is open.
pub fn refresh_due(mode: AppMode, tab: Tab, input: InputMode, stats_secs: u64, parliament_secs: u64, wise_secs: u64) -> (r: RefreshDue)
    ensures
        r.stats == (mode == AppMode::Viewer && tab == Tab::Stats && input == InputMode::Normal && stats_secs >= REFRESH_SECS),
        r.parliament == (mode == AppMode::Parliament && input == InputMode::Normal && parliament_secs >= REFRESH_SECS),
        r.parliament_issues == (r.parliament && tab == Tab::Issues),
        r.wise == (mode == AppMode::Wise && tab == Tab::WsStats && input == InputMode::Normal && wise_secs >= REFRESH_SECS),
{
    let normal = input == InputMode::Normal;
    let stats = mode == AppMode::Viewer && tab == Tab::Stats && normal && stats_secs >= REFRESH_SECS;
    let parliament = mode == AppMode::Parliament && normal && parliament_secs >= REFRESH_SECS;
    let wise = mode == AppMode::Wise && tab == Tab::WsStats && normal && wise_secs >= REFRESH_SECS;
    RefreshDue { stats, parliament, parliament_issues: parliament && tab == Tab::Issues, wise }
}

/// What a key press does before the screen handles it.
#[derive(Clone, Copy, PartialEq, Eq, Structural, Debug)]
pub enum KeyOutcome {
    /// Ctrl+C, or `q` where nothing else takes it: leave the program.
    Quit,
    /// `q` while a server reached from Parliament is shown: go back to Parliament.
    ReturnToParliament,
    /// Anything else: the screen handles the key.
    Handle,
}

/// Decides what a key press does: Ctrl+C leaves; `q` outside a detail view, with no
/// input open and no popup that `q` closes, goes back to Parliament when a server was
/// opened from there and leaves otherwise; the screen handles anything else.
pub fn key_outcome(ctrl_c: bool, is_q: bool, in_detail: bool, input: InputMode, q_closes_popup: bool, from_parliament: bool) -> (r: KeyOutcome)
    ensures
        r == (if ctrl_c {
            KeyOutcome::Quit
        } else if is_q && !in_detail && input == InputMode::Normal && !q_closes_popup {
            if from_parliament { KeyOutcome::ReturnToParliament } else { KeyOutcome::Quit }
        } else {
            KeyOutcome::Handle
        }),
{
    if ctrl_c {
        KeyOutcome::Quit
    } else if is_q && !in_detail && input == InputMode::Normal && !q_closes_popup {
        if from_parliament {
            KeyOutcome::ReturnToParliament
        } else {
            KeyOutcome::Quit
        }
    } else {
        KeyOutcome::Handle
    }
}

/// The status line after a summary arrived: `Summary: <n> items for <field>`.
pub open spec fn summary_msg(n: nat, field: Seq<char>) -> Seq<char> {
    "Summary: "@ + spec_digits(n) + " items for "@ + field
}

impl App {
    /// Takes in the rows of a summary request: sorted by the chosen key, the first
    /// selected, the loading indicator off.
    pub fn vr_apply_summary(&mut self, items: Vec<SummaryItem>)
        ensures
            summary_views(final(self).viewer.summary_data@) == spec_sorted_summary(summary_views(items@),
                old(self).viewer.summary_sort, old(self).viewer.summary_sort_desc),
            final(self).status_msg@ == summary_msg(items@.len(), old(self).viewer.summary_field@),
            *final(self) == (App {
                viewer: ViewerState {
                    summary_data: final(self).viewer.summary_data,
                    summary_selected: 0,
                    summary_table_selected: Some(0),
                    ..old(self).viewer
                },
                status_msg: final(self).status_msg,
                show_loading: false,
                ..*old(self)
            }),
    {
        let n = items.len();
        let mut msg = str_to_string("Summary: ");
        let d = number_text(n as u64);
        append_str(&mut msg, d.as_str());
        append_str(&mut msg, " items for ");
        append_str(&mut msg, self.viewer.summary_field.as_str());
        self.viewer.summary_data = items;
        self.vr_sort_summary_data();
        self.status_msg = msg;
        self.show_loading = false;
    }
    /// The first visit of the current Stats sub-tab: marks the saved state of its slot as
    /// loaded and says whether it is to be loaded (before the sub-tab's data is fetched,
    /// as always). A sub-tab without columns has no saved state to load.
    pub fn vr_init_stats_tab(&mut self) -> (load_state: bool)
        requires
            old(self).viewer.wf(),
        ensures
            match old(self).viewer.stats_tab.spec_col_index() {
                None => !load_state && *final(self) == *old(self),
                Some(idx) => {
                    &&& load_state == !old(self).viewer.stats_state_loaded@[idx as int]
                    &&& final(self).viewer.stats_state_loaded@ == old(self).viewer.stats_state_loaded@.update(idx as int, true)
                    &&& *final(self) == (App {
                        viewer: ViewerState {
                            stats_state_loaded: final(self).viewer.stats_state_loaded,
                            ..old(self).viewer
                        },
                        ..*old(self)
                    })
                },
            },
    {
        let idx = match self.viewer.stats_tab.col_index() {
            Some(i) => i,
            None => {
                return false;
            },
        };
        let loaded = self.viewer.stats_state_loaded[idx];
        if !loaded {
            self.viewer.stats_state_loaded.set(idx, true);
        } else {
            assert(self.viewer.stats_state_loaded@ =~= self.viewer.stats_state_loaded@.update(idx as int, true));
        }
        !loaded
    }

    /// The first visit of the Files tab: marks its saved state as loaded and says whether
    /// it is to be loaded (before the files are fetched, as always).
    pub fn vr_init_files_tab(&mut self) -> (load_state: bool)
        ensures
            load_state == !old(self).viewer.files_state_loaded,
            *final(self) == (App {
                viewer: ViewerState { files_state_loaded: true, ..old(self).viewer },
                ..*old(self)
            }),
    {
        let load = !self.viewer.files_state_loaded;
        self.viewer.files_state_loaded = true;
        load
    }

    /// Refreshing the current tab: the Arkime tab asks for its summary again (as
    /// `vr_request_summary_fetch` does); every other tab fetches its sessions, which the
    /// result asks for.
    pub fn refresh_for_active_tab(&mut self) -> (fetch_sessions: bool)
        ensures
            fetch_sessions == (old(self).active_tab != Tab::Arkime),
            old(self).active_tab != Tab::Arkime ==> *final(self) == *old(self),
            old(self).active_tab == Tab::Arkime && old(self).viewer.summary_field@.len() == 0 ==> *final(self)
                == *old(self),
            old(self).active_tab == Tab::Arkime && old(self).viewer.summary_field@.len() > 0 ==> *final(self)
                == (App {
                show_loading: true,
                viewer: ViewerState { pending_summary_fetch: true, ..old(self).viewer },
                ..*old(self)
            }),
    {
        if self.active_tab == Tab::Arkime {
            self.vr_request_summary_fetch();
            false
        } else {
            true
        }
    }
}

} // verus!
