use vstd::prelude::*;

verus! {

/// Fields of a session that the detail pane hides.
pub open spec fn spec_is_hidden_detail_field(key: Seq<char>) -> bool {
    ||| key == "packetPos"@
    ||| key == "packetRange"@
    ||| key == "packetLen"@
    ||| crate::text::spec_ends_with(key, "Cnt"@)
}

/// True for the session fields that the detail pane does not show: the packet
/// position bookkeeping and every count field (`...Cnt`).
pub fn is_hidden_detail_field(key: &str) -> (b: bool)
    ensures
        b == spec_is_hidden_detail_field(key@),
{
    let k = crate::text::str_to_string(key);
    if crate::text::string_eq_str(&k, "packetPos") || crate::text::string_eq_str(&k, "packetRange")
        || crate::text::string_eq_str(&k, "packetLen") {
        return true;
    }
    crate::text::ends_with(key, "Cnt")
}

/// True for the fields that cannot be turned into an expression from the detail pane.
pub fn is_non_actionable_field(key: &str) -> (b: bool)
    ensures
        b == (key@ == "@timestamp"@),
{
    let k = crate::text::str_to_string(key);
    crate::text::string_eq_str(&k, "@timestamp")
}

#[derive(Clone, Copy, PartialEq, Eq, Structural, Debug)]
pub enum ColumnEditorMode {
    Browse,
    Reorder,
}

#[derive(Clone, Copy, PartialEq, Eq, Structural, Debug)]
pub enum LayoutPopupMode {
    List,
    SaveInput,
    ConfirmDelete,
}

#[derive(Clone, Copy, PartialEq, Eq, Structural, Debug)]
pub enum ViewPopupMode {
    List,
    SaveInput,
    ConfirmDelete,
}

/// The four applications of the Arkime suite that the client can talk to.
#[derive(Clone, Copy, PartialEq, Eq, Structural, Debug)]
pub enum AppMode {
    Viewer,
    Cont3xt,
    Wise,
    Parliament,
}

/// The tabs of the tab bar.
#[derive(Clone, Copy, PartialEq, Eq, Structural, Debug)]
pub enum Tab {
    Arkime,
    Sessions,
    Stats,
    Files,
    Search,
    C3Stats,
    History,
    Dashboard,
    Issues,
    WsStats,
    WsQuery,
    Settings,
    Users,
}

impl AppMode {
    pub open spec fn spec_tabs(self) -> Seq<Tab> {
        match self {
            AppMode::Viewer => seq![Tab::Arkime, Tab::Sessions, Tab::Stats, Tab::Files, Tab::Settings],
            AppMode::Cont3xt => seq![Tab::Search, Tab::C3Stats, Tab::History, Tab::Settings],
            AppMode::Wise => seq![Tab::WsStats, Tab::WsQuery, Tab::Settings],
            AppMode::Parliament => seq![Tab::Dashboard, Tab::Issues, Tab::Settings],
        }
    }

    pub open spec fn spec_label(self) -> Seq<char> {
        match self {
            AppMode::Viewer => "Viewer"@,
            AppMode::Cont3xt => "Cont3xt"@,
            AppMode::Wise => "WISE"@,
            AppMode::Parliament => "Parliament"@,
        }
    }

    pub open spec fn spec_default_tab(self) -> Tab {
        match self {
            AppMode::Viewer => Tab::Sessions,
            AppMode::Cont3xt => Tab::Search,
            AppMode::Parliament => Tab::Dashboard,
            AppMode::Wise => Tab::WsStats,
        }
    }

    /// The tabs shown in the tab bar of this mode, in order.
    pub fn tabs(&self) -> (t: Vec<Tab>)
        ensures
            t@ == self.spec_tabs(),
    {
        match self {
            AppMode::Viewer => vec![Tab::Arkime, Tab::Sessions, Tab::Stats, Tab::Files, Tab::Settings],
            AppMode::Cont3xt => vec![Tab::Search, Tab::C3Stats, Tab::History, Tab::Settings],
            AppMode::Wise => vec![Tab::WsStats, Tab::WsQuery, Tab::Settings],
            AppMode::Parliament => vec![Tab::Dashboard, Tab::Issues, Tab::Settings],
        }
    }

    pub fn label(&self) -> (s: &'static str)
        ensures
            s@ == self.spec_label(),
    {
        match self {
            AppMode::Viewer => "Viewer",
            AppMode::Cont3xt => "Cont3xt",
            AppMode::Wise => "WISE",
            AppMode::Parliament => "Parliament",
        }
    }

    /// The tab that a mode opens on.
    pub fn default_tab(&self) -> (t: Tab)
        ensures
            t == self.spec_default_tab(),
    {
        match self {
            AppMode::Viewer => Tab::Sessions,
            AppMode::Cont3xt => Tab::Search,
            AppMode::Parliament => Tab::Dashboard,
            AppMode::Wise => Tab::WsStats,
        }
    }
}

/// The tab a mode opens on is one of the tabs of its tab bar.
pub proof fn lemma_default_tab_is_a_tab(mode: AppMode)
    ensures
        mode.spec_tabs().contains(mode.spec_default_tab()),
{
    match mode {
        AppMode::Viewer => assert(mode.spec_tabs()[1] == Tab::Sessions),
        AppMode::Cont3xt => assert(mode.spec_tabs()[0] == Tab::Search),
        AppMode::Wise => assert(mode.spec_tabs()[0] == Tab::WsStats),
        AppMode::Parliament => assert(mode.spec_tabs()[0] == Tab::Dashboard),
    }
}

/// Every mode has a Settings tab, and it is the last tab of the bar.
pub proof fn lemma_settings_tab_last(mode: AppMode)
    ensures
        mode.spec_tabs().len() > 0,
        mode.spec_tabs().last() == Tab::Settings,
{
}

impl Tab {
    pub open spec fn spec_name(self) -> Seq<char> {
        match self {
            Tab::Arkime => "Arkime"@,
            Tab::Sessions => "Sessions"@,
            Tab::Stats => "Stats"@,
            Tab::Files => "Files"@,
            Tab::Search => "Search"@,
            Tab::C3Stats => "Stats"@,
            Tab::History => "History"@,
            Tab::Dashboard => "Dashboard"@,
            Tab::Issues => "Issues"@,
            Tab::WsStats => "Stats"@,
            Tab::WsQuery => "Query"@,
            Tab::Settings => "Settings"@,
            Tab::Users => "Users"@,
        }
    }

    pub fn name(&self) -> (s: &'static str)
        ensures
            s@ == self.spec_name(),
    {
        match self {
            Tab::Arkime => "Arkime",
            Tab::Sessions => "Sessions",
            Tab::Stats => "Stats",
            Tab::Files => "Files",
            Tab::Search => "Search",
            Tab::C3Stats => "Stats",
            Tab::History => "History",
            Tab::Dashboard => "Dashboard",
            Tab::Issues => "Issues",
            Tab::WsStats => "Stats",
            Tab::WsQuery => "Query",
            Tab::Settings => "Settings",
            Tab::Users => "Users",
        }
    }
}

/// What the sessions graph plots.
#[derive(Clone, Copy, PartialEq, Eq, Structural, Debug)]
pub enum GraphType {
    Sessions,
    Packets,
    Bytes,
}

impl GraphType {
    pub open spec fn spec_label(self) -> Seq<char> {
        match self {
            GraphType::Sessions => "Sessions"@,
            GraphType::Packets => "Packets"@,
            GraphType::Bytes => "Bytes"@,
        }
    }

    pub open spec fn spec_next(self) -> GraphType {
        match self {
            GraphType::Sessions => GraphType::Packets,
            GraphType::Packets => GraphType::Bytes,
            GraphType::Bytes => GraphType::Sessions,
        }
    }

    /// The graph types in cycling order.
    pub fn all() -> (v: Vec<GraphType>)
        ensures
            v@ == seq![GraphType::Sessions, GraphType::Packets, GraphType::Bytes],
    {
        vec![GraphType::Sessions, GraphType::Packets, GraphType::Bytes]
    }

    pub fn label(&self) -> (s: &'static str)
        ensures
            s@ == self.spec_label(),
    {
        match self {
            GraphType::Sessions => "Sessions",
            GraphType::Packets => "Packets",
            GraphType::Bytes => "Bytes",
        }
    }

    /// The next graph type in cycling order (Sessions, Packets, Bytes, then Sessions again).
    pub fn next(&self) -> (r: GraphType)
        ensures
            r == self.spec_next(),
    {
        match self {
            GraphType::Sessions => GraphType::Packets,
            GraphType::Packets => GraphType::Bytes,
            GraphType::Bytes => GraphType::Sessions,
        }
    }
}

/// Height of the sessions graph.
#[derive(Clone, Copy, PartialEq, Eq, Structural, Debug)]
pub enum GraphSize {
    Off,
    Small,
    Large,
}

impl GraphSize {
    pub open spec fn spec_next(self) -> GraphSize {
        match self {
            GraphSize::Off => GraphSize::Small,
            GraphSize::Small => GraphSize::Large,
            GraphSize::Large => GraphSize::Off,
        }
    }

    pub open spec fn spec_height(self) -> u16 {
        match self {
            GraphSize::Off => 0,
            GraphSize::Small => 10,
            GraphSize::Large => 20,
        }
    }

    pub fn next(&self) -> (r: GraphSize)
        ensures
            r == self.spec_next(),
    {
        match self {
            GraphSize::Off => GraphSize::Small,
            GraphSize::Small => GraphSize::Large,
            GraphSize::Large => GraphSize::Off,
        }
    }

    /// Rows that the graph takes on screen.
    pub fn height(&self) -> (h: u16)
        ensures
            h == self.spec_height(),
    {
        match self {
            GraphSize::Off => 0,
            GraphSize::Small => 10,
            GraphSize::Large => 20,
        }
    }

    pub fn is_visible(&self) -> (b: bool)
        ensures
            b == (*self != GraphSize::Off),
    {
        *self != GraphSize::Off
    }
}

/// The graph is visible exactly when it takes rows on screen.
pub proof fn lemma_graph_visible_iff_height(g: GraphSize)
    ensures
        (g != GraphSize::Off) <==> g.spec_height() > 0,
{
}

/// Line numbering in the packets view.
#[derive(Clone, Copy, PartialEq, Eq, Structural, Debug)]
pub enum LineMode {
    Off,
    Hex,
    Decimal,
}

impl LineMode {
    pub open spec fn spec_next(self) -> LineMode {
        match self {
            LineMode::Off => LineMode::Hex,
            LineMode::Hex => LineMode::Decimal,
            LineMode::Decimal => LineMode::Off,
        }
    }

    pub open spec fn spec_label(self) -> Seq<char> {
        match self {
            LineMode::Off => "off"@,
            LineMode::Hex => "hex"@,
            LineMode::Decimal => "dec"@,
        }
    }

    pub fn next(&self) -> (r: LineMode)
        ensures
            r == self.spec_next(),
    {
        match self {
            LineMode::Off => LineMode::Hex,
            LineMode::Hex => LineMode::Decimal,
            LineMode::Decimal => LineMode::Off,
        }
    }

    pub fn label(&self) -> (s: &'static str)
        ensures
            s@ == self.spec_label(),
    {
        match self {
            LineMode::Off => "off",
            LineMode::Hex => "hex",
            LineMode::Decimal => "dec",
        }
    }
}

/// Whether the sessions tab shows the list or one session.
#[derive(Clone, Copy, PartialEq, Eq, Structural, Debug)]
pub enum SessionView {
    List,
    Detail,
}

/// The metric of the summary bar chart.
#[derive(Clone, Copy, PartialEq, Eq, Structural, Debug)]
pub enum SummaryMetric {
    Sessions,
    Packets,
    Bytes,
}

impl SummaryMetric {
    pub open spec fn spec_label(self) -> Seq<char> {
        match self {
            SummaryMetric::Sessions => "Sessions"@,
            SummaryMetric::Packets => "Packets"@,
            SummaryMetric::Bytes => "Bytes"@,
        }
    }

    pub open spec fn spec_next(self) -> SummaryMetric {
        match self {
            SummaryMetric::Sessions => SummaryMetric::Packets,
            SummaryMetric::Packets => SummaryMetric::Bytes,
            SummaryMetric::Bytes => SummaryMetric::Sessions,
        }
    }

    /// The metrics in cycling order.
    pub fn all() -> (v: Vec<SummaryMetric>)
        ensures
            v@ == seq![SummaryMetric::Sessions, SummaryMetric::Packets, SummaryMetric::Bytes],
    {
        vec![SummaryMetric::Sessions, SummaryMetric::Packets, SummaryMetric::Bytes]
    }

    pub fn label(&self) -> (s: &'static str)
        ensures
            s@ == self.spec_label(),
    {
        match self {
            SummaryMetric::Sessions => "Sessions",
            SummaryMetric::Packets => "Packets",
            SummaryMetric::Bytes => "Bytes",
        }
    }

    pub fn next(&self) -> (r: SummaryMetric)
        ensures
            r == self.spec_next(),
    {
        match self {
            SummaryMetric::Sessions => SummaryMetric::Packets,
            SummaryMetric::Packets => SummaryMetric::Bytes,
            SummaryMetric::Bytes => SummaryMetric::Sessions,
        }
    }
}

/// The sort key of the summary table.
#[derive(Clone, Copy, PartialEq, Eq, Structural, Debug)]
pub enum SummarySort {
    Value,
    Sessions,
    Packets,
    Bytes,
}

impl SummarySort {
    pub open spec fn spec_next(self) -> SummarySort {
        match self {
            SummarySort::Value => SummarySort::Sessions,
            SummarySort::Sessions => SummarySort::Packets,
            SummarySort::Packets => SummarySort::Bytes,
            SummarySort::Bytes => SummarySort::Value,
        }
    }

    /// The sort keys in cycling order.
    pub fn all() -> (v: Vec<SummarySort>)
        ensures
            v@ == seq![SummarySort::Value, SummarySort::Sessions, SummarySort::Packets, SummarySort::Bytes],
    {
        vec![SummarySort::Value, SummarySort::Sessions, SummarySort::Packets, SummarySort::Bytes]
    }

    pub fn next(&self) -> (r: SummarySort)
        ensures
            r == self.spec_next(),
    {
        match self {
            SummarySort::Value => SummarySort::Sessions,
            SummarySort::Sessions => SummarySort::Packets,
            SummarySort::Packets => SummarySort::Bytes,
            SummarySort::Bytes => SummarySort::Value,
        }
    }
}

/// The sub-tabs of the viewer's Stats tab.
#[derive(Clone, Copy, PartialEq, Eq, Structural, Debug)]
pub enum StatsTab {
    CaptureGraphs,
    Capture,
    DBStats,
    DBIndices,
    DBTasks,
    DBShards,
    DBRecovery,
}

impl StatsTab {
    /// Position of a sub-tab in the sub-tab bar.
    pub open spec fn spec_position(self) -> nat {
        match self {
            StatsTab::CaptureGraphs => 0,
            StatsTab::Capture => 1,
            StatsTab::DBStats => 2,
            StatsTab::DBIndices => 3,
            StatsTab::DBTasks => 4,
            StatsTab::DBShards => 5,
            StatsTab::DBRecovery => 6,
        }
    }

    pub open spec fn spec_name(self) -> Seq<char> {
        match self {
            StatsTab::CaptureGraphs => "Capture Graphs"@,
            StatsTab::Capture => "Capture Stats"@,
            StatsTab::DBStats => "DB Nodes"@,
            StatsTab::DBIndices => "DB Indices"@,
            StatsTab::DBTasks => "DB Tasks"@,
            StatsTab::DBShards => "DB Shards"@,
            StatsTab::DBRecovery => "DB Recovery"@,
        }
    }

    pub open spec fn spec_col_index(self) -> Option<usize> {
        match self {
            StatsTab::Capture => Some(0),
            StatsTab::DBStats => Some(1),
            StatsTab::DBIndices => Some(2),
            StatsTab::DBTasks => Some(3),
            StatsTab::DBRecovery => Some(4),
            StatsTab::CaptureGraphs | StatsTab::DBShards => None,
        }
    }

    pub open spec fn spec_all() -> Seq<StatsTab> {
        seq![StatsTab::CaptureGraphs, StatsTab::Capture, StatsTab::DBStats, StatsTab::DBIndices,
            StatsTab::DBTasks, StatsTab::DBShards, StatsTab::DBRecovery]
    }

    /// The sub-tabs in the order of the sub-tab bar.
    pub fn all() -> (v: Vec<StatsTab>)
        ensures
            v@ == Self::spec_all(),
    {
        vec![StatsTab::CaptureGraphs, StatsTab::Capture, StatsTab::DBStats, StatsTab::DBIndices,
            StatsTab::DBTasks, StatsTab::DBShards, StatsTab::DBRecovery]
    }

    /// Position of the sub-tab in the sub-tab bar, which indexes the per-tab state arrays.
    pub fn position(&self) -> (i: usize)
        ensures
            i == self.spec_position(),
            i < 7,
            Self::spec_all()[i as int] == *self,
    {
        match self {
            StatsTab::CaptureGraphs => 0,
            StatsTab::Capture => 1,
            StatsTab::DBStats => 2,
            StatsTab::DBIndices => 3,
            StatsTab::DBTasks => 4,
            StatsTab::DBShards => 5,
            StatsTab::DBRecovery => 6,
        }
    }

    pub fn name(&self) -> (s: &'static str)
        ensures
            s@ == self.spec_name(),
    {
        match self {
            StatsTab::CaptureGraphs => "Capture Graphs",
            StatsTab::Capture => "Capture Stats",
            StatsTab::DBStats => "DB Nodes",
            StatsTab::DBIndices => "DB Indices",
            StatsTab::DBTasks => "DB Tasks",
            StatsTab::DBShards => "DB Shards",
            StatsTab::DBRecovery => "DB Recovery",
        }
    }

    /// The slot of a column-based sub-tab in the per-sub-tab arrays of the viewer state
    /// (`stats_columns`, `stats_state_loaded`); the graphs and the shards grid have no
    /// columns and no slot.
    pub fn col_index(&self) -> (r: Option<usize>)
        ensures
            r == self.spec_col_index(),
    {
        match self {
            StatsTab::Capture => Some(0),
            StatsTab::DBStats => Some(1),
            StatsTab::DBIndices => Some(2),
            StatsTab::DBTasks => Some(3),
            StatsTab::DBRecovery => Some(4),
            StatsTab::CaptureGraphs | StatsTab::DBShards => None,
        }
    }
}

/// The column indices of the column-based sub-tabs are distinct and below five.
pub proof fn lemma_col_index_injective(a: StatsTab, b: StatsTab)
    ensures
        a.spec_col_index() is Some ==> a.spec_col_index()->0 < 5,
        a.spec_col_index() is Some && a.spec_col_index() == b.spec_col_index() ==> a == b,
{
}

/// Which shards the DB Shards grid shows.
#[derive(Clone, Copy, PartialEq, Eq, Structural, Debug)]
pub enum ShardsShow {
    All,
    NotStarted,
    Initializing,
    Relocating,
    Unassigned,
}

impl ShardsShow {
    pub open spec fn spec_label(self) -> Seq<char> {
        match self {
            ShardsShow::All => "All"@,
            ShardsShow::NotStarted => "Not Started"@,
            ShardsShow::Initializing => "Initializing"@,
            ShardsShow::Relocating => "Relocating"@,
            ShardsShow::Unassigned => "Unassigned"@,
        }
    }

    pub open spec fn spec_api_value(self) -> Seq<char> {
        match self {
            ShardsShow::All => "all"@,
            ShardsShow::NotStarted => "notstarted"@,
            ShardsShow::Initializing => "INITIALIZING"@,
            ShardsShow::Relocating => "RELOCATING"@,
            ShardsShow::Unassigned => "UNASSIGNED"@,
        }
    }

    pub open spec fn spec_next(self) -> ShardsShow {
        match self {
            ShardsShow::All => ShardsShow::NotStarted,
            ShardsShow::NotStarted => ShardsShow::Initializing,
            ShardsShow::Initializing => ShardsShow::Relocating,
            ShardsShow::Relocating => ShardsShow::Unassigned,
            ShardsShow::Unassigned => ShardsShow::All,
        }
    }

    pub open spec fn spec_prev(self) -> ShardsShow {
        match self {
            ShardsShow::All => ShardsShow::Unassigned,
            ShardsShow::NotStarted => ShardsShow::All,
            ShardsShow::Initializing => ShardsShow::NotStarted,
            ShardsShow::Relocating => ShardsShow::Initializing,
            ShardsShow::Unassigned => ShardsShow::Relocating,
        }
    }

    /// The filters in cycling order.
    pub fn all() -> (v: Vec<ShardsShow>)
        ensures
            v@ == seq![ShardsShow::All, ShardsShow::NotStarted, ShardsShow::Initializing,
                ShardsShow::Relocating, ShardsShow::Unassigned],
    {
        vec![ShardsShow::All, ShardsShow::NotStarted, ShardsShow::Initializing,
            ShardsShow::Relocating, ShardsShow::Unassigned]
    }

    pub fn label(&self) -> (s: &'static str)
        ensures
            s@ == self.spec_label(),
    {
        match self {
            ShardsShow::All => "All",
            ShardsShow::NotStarted => "Not Started",
            ShardsShow::Initializing => "Initializing",
            ShardsShow::Relocating => "Relocating",
            ShardsShow::Unassigned => "Unassigned",
        }
    }

    /// The value of the `show` parameter of the shards request.
    pub fn api_value(&self) -> (s: &'static str)
        ensures
            s@ == self.spec_api_value(),
    {
        match self {
            ShardsShow::All => "all",
            ShardsShow::NotStarted => "notstarted",
            ShardsShow::Initializing => "INITIALIZING",
            ShardsShow::Relocating => "RELOCATING",
            ShardsShow::Unassigned => "UNASSIGNED",
        }
    }

    pub fn next(&self) -> (r: ShardsShow)
        ensures
            r == self.spec_next(),
    {
        match self {
            ShardsShow::All => ShardsShow::NotStarted,
            ShardsShow::NotStarted => ShardsShow::Initializing,
            ShardsShow::Initializing => ShardsShow::Relocating,
            ShardsShow::Relocating => ShardsShow::Unassigned,
            ShardsShow::Unassigned => ShardsShow::All,
        }
    }

    pub fn prev(&self) -> (r: ShardsShow)
        ensures
            r == self.spec_prev(),
    {
        match self {
            ShardsShow::All => ShardsShow::Unassigned,
            ShardsShow::NotStarted => ShardsShow::All,
            ShardsShow::Initializing => ShardsShow::NotStarted,
            ShardsShow::Relocating => ShardsShow::Initializing,
            ShardsShow::Unassigned => ShardsShow::Relocating,
        }
    }
}

/// Going to the previous shards filter undoes going to the next one, and back.
pub proof fn lemma_shards_show_prev_next(s: ShardsShow)
    ensures
        s.spec_next().spec_prev() == s,
        s.spec_prev().spec_next() == s,
{
}

/// Capture graph metric: the stats field that is plotted and its title.
#[derive(Clone, Copy, Debug)]
pub struct CaptureGraphMetric {
    pub field: &'static str,
    pub label: &'static str,
}

/// Sampling interval of the capture graphs.
#[derive(Clone, Copy, PartialEq, Eq, Structural, Debug)]
pub enum CaptureGraphInterval {
    FiveSec,
    OneMin,
    TenMin,
}

impl CaptureGraphInterval {
    pub open spec fn spec_label(self) -> Seq<char> {
        match self {
            CaptureGraphInterval::FiveSec => "5 sec"@,
            CaptureGraphInterval::OneMin => "1 min"@,
            CaptureGraphInterval::TenMin => "10 min"@,
        }
    }

    pub open spec fn spec_seconds(self) -> u64 {
        match self {
            CaptureGraphInterval::FiveSec => 5,
            CaptureGraphInterval::OneMin => 60,
            CaptureGraphInterval::TenMin => 600,
        }
    }

    pub open spec fn spec_next(self) -> CaptureGraphInterval {
        match self {
            CaptureGraphInterval::FiveSec => CaptureGraphInterval::OneMin,
            CaptureGraphInterval::OneMin => CaptureGraphInterval::TenMin,
            CaptureGraphInterval::TenMin => CaptureGraphInterval::FiveSec,
        }
    }

    pub fn label(&self) -> (s: &'static str)
        ensures
            s@ == self.spec_label(),
    {
        match self {
            CaptureGraphInterval::FiveSec => "5 sec",
            CaptureGraphInterval::OneMin => "1 min",
            CaptureGraphInterval::TenMin => "10 min",
        }
    }

    pub fn seconds(&self) -> (n: u64)
        ensures
            n == self.spec_seconds(),
    {
        match self {
            CaptureGraphInterval::FiveSec => 5,
            CaptureGraphInterval::OneMin => 60,
            CaptureGraphInterval::TenMin => 600,
        }
    }

    pub fn next(&self) -> (r: CaptureGraphInterval)
        ensures
            r == self.spec_next(),
    {
        match self {
            CaptureGraphInterval::FiveSec => CaptureGraphInterval::OneMin,
            CaptureGraphInterval::OneMin => CaptureGraphInterval::TenMin,
            CaptureGraphInterval::TenMin => CaptureGraphInterval::FiveSec,
        }
    }
}

/// Each interval is longer than the one before it, up to the longest, after which the cycle restarts.
pub proof fn lemma_interval_next_longer(i: CaptureGraphInterval)
    ensures
        i != CaptureGraphInterval::TenMin ==> i.spec_next().spec_seconds() > i.spec_seconds(),
        i == CaptureGraphInterval::TenMin ==> i.spec_next() == CaptureGraphInterval::FiveSec,
{
}

/// Which capture nodes the graphs hide.
#[derive(Clone, Copy, PartialEq, Eq, Structural, Debug)]
pub enum CaptureGraphHide {
    Neither,
    Old,
    NoSessions,
    Both,
}

impl CaptureGraphHide {
    pub open spec fn spec_label(self) -> Seq<char> {
        match self {
            CaptureGraphHide::Neither => "None"@,
            CaptureGraphHide::Old => "Old"@,
            CaptureGraphHide::NoSessions => "No Sessions"@,
            CaptureGraphHide::Both => "Both"@,
        }
    }

    pub open spec fn spec_api_value(self) -> Seq<char> {
        match self {
            CaptureGraphHide::Neither => "none"@,
            CaptureGraphHide::Old => "old"@,
            CaptureGraphHide::NoSessions => "nosession"@,
            CaptureGraphHide::Both => "both"@,
        }
    }

    pub open spec fn spec_next(self) -> CaptureGraphHide {
        match self {
            CaptureGraphHide::Neither => CaptureGraphHide::Old,
            CaptureGraphHide::Old => CaptureGraphHide::NoSessions,
            CaptureGraphHide::NoSessions => CaptureGraphHide::Both,
            CaptureGraphHide::Both => CaptureGraphHide::Neither,
        }
    }

    pub fn label(&self) -> (s: &'static str)
        ensures
            s@ == self.spec_label(),
    {
        match self {
            CaptureGraphHide::Neither => "None",
            CaptureGraphHide::Old => "Old",
            CaptureGraphHide::NoSessions => "No Sessions",
            CaptureGraphHide::Both => "Both",
        }
    }

    pub fn api_value(&self) -> (s: &'static str)
        ensures
            s@ == self.spec_api_value(),
    {
        match self {
            CaptureGraphHide::Neither => "none",
            CaptureGraphHide::Old => "old",
            CaptureGraphHide::NoSessions => "nosession",
            CaptureGraphHide::Both => "both",
        }
    }

    pub fn next(&self) -> (r: CaptureGraphHide)
        ensures
            r == self.spec_next(),
    {
        match self {
            CaptureGraphHide::Neither => CaptureGraphHide::Old,
            CaptureGraphHide::Old => CaptureGraphHide::NoSessions,
            CaptureGraphHide::NoSessions => CaptureGraphHide::Both,
            CaptureGraphHide::Both => CaptureGraphHide::Neither,
        }
    }
}

/// Cycling any of the viewer's selectors comes back to where it started after
/// as many steps as the selector has values.
pub proof fn lemma_viewer_cycles(
    g: GraphType,
    s: GraphSize,
    l: LineMode,
    m: SummaryMetric,
    o: SummarySort,
    h: ShardsShow,
    i: CaptureGraphInterval,
    c: CaptureGraphHide,
)
    ensures
        g.spec_next().spec_next().spec_next() == g,
        s.spec_next().spec_next().spec_next() == s,
        l.spec_next().spec_next().spec_next() == l,
        m.spec_next().spec_next().spec_next() == m,
        o.spec_next().spec_next().spec_next().spec_next() == o,
        h.spec_next().spec_next().spec_next().spec_next().spec_next() == h,
        i.spec_next().spec_next().spec_next() == i,
        c.spec_next().spec_next().spec_next().spec_next() == c,
{
}

/// Whether the Stats tab shows the list or one item.
#[derive(Clone, Copy, PartialEq, Eq, Structural, Debug)]
pub enum StatsView {
    List,
    Detail,
}

/// What the keyboard currently edits.
#[derive(Clone, Copy, PartialEq, Eq, Structural, Debug)]
pub enum InputMode {
    Normal,
    Expression,
    ActionPrompt,
    DetailFilter,
    FieldSelector,
}

#[derive(Clone, Copy, PartialEq, Eq, Structural, Debug)]
pub enum ActionTarget {
    Single,
    All,
}

#[derive(Clone, Copy, PartialEq, Eq, Structural, Debug)]
pub enum ActionScope {
    Visible,
    Matching,
}

/// The actions on sessions.
#[derive(Clone, Copy, PartialEq, Eq, Structural, Debug)]
pub enum ActionKind {
    DownloadPcap,
    ExportCsv,
    AddTags,
    RemoveTags,
}

/// The action menu of the sessions list.
pub struct ActionMenu {
    pub target: ActionTarget,
    pub selected: usize,
    pub session_id: Option<String>,
    pub session_node: Option<String>,
    pub scope: Option<ActionScope>,
    pub pending_kind: Option<ActionKind>,
}

pub open spec fn spec_action_options(target: ActionTarget, remove_enabled: bool) -> Seq<ActionKind> {
    let base = match target {
        ActionTarget::Single => seq![ActionKind::DownloadPcap, ActionKind::AddTags],
        ActionTarget::All => seq![ActionKind::DownloadPcap, ActionKind::ExportCsv, ActionKind::AddTags],
    };
    if remove_enabled {
        base.push(ActionKind::RemoveTags)
    } else {
        base
    }
}

impl ActionMenu {
    /// The actions offered: CSV export only for all sessions, tag removal only where
    /// the user may remove tags.
    pub fn options(&self, remove_enabled: bool) -> (opts: Vec<ActionKind>)
        ensures
            opts@ == spec_action_options(self.target, remove_enabled),
    {
        let mut opts = match self.target {
            ActionTarget::Single => vec![ActionKind::DownloadPcap, ActionKind::AddTags],
            ActionTarget::All => vec![ActionKind::DownloadPcap, ActionKind::ExportCsv, ActionKind::AddTags],
        };
        if remove_enabled {
            opts.push(ActionKind::RemoveTags);
        }
        opts
    }
}

/// Pcap download is always offered, tag removal exactly when the user may remove tags.
pub proof fn lemma_action_options(target: ActionTarget, remove_enabled: bool)
    ensures
        spec_action_options(target, remove_enabled)[0] == ActionKind::DownloadPcap,
        spec_action_options(target, remove_enabled).contains(ActionKind::RemoveTags) <==> remove_enabled,
        spec_action_options(target, remove_enabled).contains(ActionKind::ExportCsv) <==> target == ActionTarget::All,
{
    let s = spec_action_options(target, remove_enabled);
    if remove_enabled {
        assert(s[s.len() - 1] == ActionKind::RemoveTags);
    }
    if target == ActionTarget::All {
        assert(s[1] == ActionKind::ExportCsv);
    }
}

impl ActionKind {
    pub open spec fn spec_label(self) -> Seq<char> {
        match self {
            ActionKind::DownloadPcap => "Download PCAP"@,
            ActionKind::ExportCsv => "Export CSV"@,
            ActionKind::AddTags => "Add Tags"@,
            ActionKind::RemoveTags => "Remove Tags"@,
        }
    }

    pub open spec fn spec_prompt_label(self) -> Seq<char> {
        match self {
            ActionKind::DownloadPcap => "Filename: "@,
            ActionKind::ExportCsv => "Filename: "@,
            ActionKind::AddTags => "Tags (comma separated): "@,
            ActionKind::RemoveTags => "Tags (comma separated): "@,
        }
    }

    pub fn label(&self) -> (s: &'static str)
        ensures
            s@ == self.spec_label(),
    {
        match self {
            ActionKind::DownloadPcap => "Download PCAP",
            ActionKind::ExportCsv => "Export CSV",
            ActionKind::AddTags => "Add Tags",
            ActionKind::RemoveTags => "Remove Tags",
        }
    }

    pub fn prompt_label(&self) -> (s: &'static str)
        ensures
            s@ == self.spec_prompt_label(),
    {
        match self {
            ActionKind::DownloadPcap => "Filename: ",
            ActionKind::ExportCsv => "Filename: ",
            ActionKind::AddTags => "Tags (comma separated): ",
            ActionKind::RemoveTags => "Tags (comma separated): ",
        }
    }
}

/// The prompt of an action that the user confirms with input.
pub struct ActionPrompt {
    pub kind: ActionKind,
    pub target: ActionTarget,
    pub scope: ActionScope,
    pub session_id: Option<String>,
    pub session_node: Option<String>,
    pub input: String,
    pub input_cursor: usize,
}

/// The menu that turns a value of the session detail into an expression.
pub struct DetailActionMenu {
    /// expression name of the field
    pub field: String,
    /// friendly name shown to the user
    pub display: String,
    pub value: String,
    pub selected: usize,
    /// the values of an array field
    pub values: Option<Vec<String>>,
    pub value_selected: usize,
}

impl DetailActionMenu {
    /// The entries of the menu, in order.
    pub fn options() -> (v: Vec<&'static str>)
        ensures
            v@.len() == 4,
            v@[0]@ == "AND value"@,
            v@[1]@ == "AND NOT value"@,
            v@[2]@ == "OR value"@,
            v@[3]@ == "OR NOT value"@,
    {
        vec!["AND value", "AND NOT value", "OR value", "OR NOT value"]
    }
}

/// A dialog that asks to confirm an action.
pub struct ConfirmDialog {
    pub title: String,
    pub message: String,
    /// identifier matched by the confirm handler
    pub action: String,
}

} // verus!
