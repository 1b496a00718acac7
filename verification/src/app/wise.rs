//! The WISE screens: the stats sub-tabs and the state of the query form.
use vstd::prelude::*;
use crate::text::str_to_string;
use crate::app::viewer::App;
use crate::ui::format::{number_text, spec_digits};
use crate::ui::json_lines::append_str;
use vstd::string::StrSliceExecFns;

verus! {

/// The sub-tabs of the WISE stats.
#[derive(Clone, Copy, PartialEq, Eq, Structural, Debug)]
pub enum WsStatsTab {
    Sources,
    Types,
}

impl WsStatsTab {
    pub open spec fn spec_label(self) -> Seq<char> {
        match self {
            WsStatsTab::Sources => "Sources"@,
            WsStatsTab::Types => "Types"@,
        }
    }

    pub fn label(&self) -> (s: &'static str)
        ensures
            s@ == self.spec_label(),
    {
        match self {
            WsStatsTab::Sources => "Sources",
            WsStatsTab::Types => "Types",
        }
    }
}

/// Statistics of one WISE source.
pub struct WsSourceStats {
    pub name: String,
}

/// Statistics of one WISE type.
pub struct WsTypeStats {
    pub name: String,
}

/// The statistics reported by a WISE service.
pub struct WsStats {
    pub sources: Vec<WsSourceStats>,
    pub types: Vec<WsTypeStats>,
}

/// One answer of a WISE query.
pub struct WsQueryResult {
    pub field: String,
    pub value: String,
}

/// The state of the WISE screens.
pub struct WiseState {
    pub stats: Option<WsStats>,
    pub stats_tab: WsStatsTab,
    pub stats_filter: String,
    pub stats_filter_edit: String,
    pub stats_selected: usize,
    pub sources: Vec<String>,
    pub types: Vec<String>,
    pub query_source: String,
    pub query_type: String,
    pub query_value: String,
    pub query_value_edit: String,
    pub query_results: Vec<WsQueryResult>,
    pub query_selected: usize,
}

impl WiseState {
    /// The state before anything was fetched: no stats, the Sources sub-tab, and a
    /// query of type `ip` against any source.
    pub fn new() -> (s: WiseState)
        ensures
            s.stats is None,
            s.stats_tab == WsStatsTab::Sources,
            s.stats_filter@ == Seq::<char>::empty(),
            s.stats_filter_edit@ == Seq::<char>::empty(),
            s.stats_selected == 0,
            s.sources@.len() == 0,
            s.types@.len() == 0,
            s.query_source@ == "any"@,
            s.query_type@ == "ip"@,
            s.query_value@ == Seq::<char>::empty(),
            s.query_value_edit@ == Seq::<char>::empty(),
            s.query_results@.len() == 0,
            s.query_selected == 0,
    {
        WiseState {
            stats: None,
            stats_tab: WsStatsTab::Sources,
            stats_filter: String::new(),
            stats_filter_edit: String::new(),
            stats_selected: 0,
            sources: Vec::new(),
            types: Vec::new(),
            query_source: str_to_string("any"),
            query_type: str_to_string("ip"),
            query_value: String::new(),
            query_value_edit: String::new(),
            query_results: Vec::new(),
            query_selected: 0,
        }
    }

    /// The sources of the fetched stats, in order; none before a fetch.
    pub fn ws_filtered_sources(&self) -> (r: Vec<&WsSourceStats>)
        ensures
            match self.stats {
                None => r@.len() == 0,
                Some(st) => r@.len() == st.sources@.len()
                    && forall|i: int| 0 <= i < r@.len() ==> *r@[i] == st.sources@[i],
            },
    {
        let mut r: Vec<&WsSourceStats> = Vec::new();
        match &self.stats {
            None => {},
            Some(st) => {
                let mut i: usize = 0;
                while i < st.sources.len()
                    invariant
                        i <= st.sources@.len(),
                        r@.len() == i,
                        forall|k: int| 0 <= k < i ==> *r@[k] == st.sources@[k],
                    decreases st.sources.len() - i,
                {
                    r.push(&st.sources[i]);
                    i = i + 1;
                }
            },
        }
        r
    }

    /// The types of the fetched stats, in order; none before a fetch.
    pub fn ws_filtered_types(&self) -> (r: Vec<&WsTypeStats>)
        ensures
            match self.stats {
                None => r@.len() == 0,
                Some(st) => r@.len() == st.types@.len()
                    && forall|i: int| 0 <= i < r@.len() ==> *r@[i] == st.types@[i],
            },
    {
        let mut r: Vec<&WsTypeStats> = Vec::new();
        match &self.stats {
            None => {},
            Some(st) => {
                let mut i: usize = 0;
                while i < st.types.len()
                    invariant
                        i <= st.types@.len(),
                        r@.len() == i,
                        forall|k: int| 0 <= k < i ==> *r@[k] == st.types@[k],
                    decreases st.types.len() - i,
                {
                    r.push(&st.types[i]);
                    i = i + 1;
                }
            },
        }
        r
    }
}

/// The status line after the WISE statistics arrived.
pub open spec fn ws_stats_msg(sources: nat, types: nat) -> Seq<char> {
    spec_digits(sources) + " sources, "@ + spec_digits(types) + " types"@
}

/// The status line after a WISE query answered.
pub open spec fn ws_query_msg(n: nat) -> Seq<char> {
    if n == 0 {
        "No results found"@
    } else {
        spec_digits(n) + " results"@
    }
}

impl App {
    /// Keeps the WISE statistics that arrived and says how many sources and types
    /// they hold.
    pub fn ws_apply_stats(&mut self, stats: WsStats)
        ensures
            final(self).status_msg@ == ws_stats_msg(stats.sources@.len(), stats.types@.len()),
            final(self).wise.stats == Some(stats),
            *final(self) == (App {
                wise: WiseState { stats: Some(stats), ..old(self).wise },
                status_msg: final(self).status_msg,
                ..*old(self)
            }),
    {
        let mut msg = number_text(stats.sources.len() as u64);
        append_str(&mut msg, " sources, ");
        let t = number_text(stats.types.len() as u64);
        append_str(&mut msg, t.as_str());
        append_str(&mut msg, " types");
        self.status_msg = msg;
        self.wise.stats = Some(stats);
    }

    /// Whether a WISE query can be sent: not without a value, and then the status
    /// line asks for one.
    pub fn ws_query_ready(&mut self) -> (ok: bool)
        ensures
            ok == (old(self).wise.query_value@.len() > 0),
            ok ==> *final(self) == *old(self),
            !ok ==> final(self).status_msg@ == "Enter a value to query"@
                && *final(self) == (App { status_msg: final(self).status_msg, ..*old(self) }),
    {
        if self.wise.query_value.as_str().unicode_len() == 0 {
            self.status_msg = str_to_string("Enter a value to query");
            false
        } else {
            true
        }
    }

    /// Keeps the answers of a WISE query, the first selected.
    pub fn ws_apply_query_results(&mut self, results: Vec<WsQueryResult>)
        ensures
            final(self).status_msg@ == ws_query_msg(results@.len()),
            final(self).wise.query_results == results,
            *final(self) == (App {
                wise: WiseState { query_results: results, query_selected: 0, ..old(self).wise },
                status_msg: final(self).status_msg,
                ..*old(self)
            }),
    {
        let n = results.len();
        let msg = if n == 0 {
            str_to_string("No results found")
        } else {
            let mut m = number_text(n as u64);
            append_str(&mut m, " results");
            m
        };
        self.wise.query_results = results;
        self.wise.query_selected = 0;
        self.status_msg = msg;
    }
}

} // verus!
