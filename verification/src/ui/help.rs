//! Which help page the help popup shows for the state of the screens, its title, and
//! where the popup stands.
use vstd::prelude::*;
use crate::app::types::{AppMode, SessionView, StatsView, Tab};
use crate::ui::layout::{center_popup, spec_center_popup, Area};

verus! {

/// What the choice of the help page reads of the screens.
#[derive(Clone, Copy, PartialEq, Eq, Structural, Debug)]
pub struct HelpState {
    pub app_mode: AppMode,
    pub active_tab: Tab,
    pub packets_open: bool,
    pub session_view: SessionView,
    pub stats_view: StatsView,
    pub show_column_editor: bool,
    pub show_layout_popup: bool,
    pub show_view_popup: bool,
    pub show_overview_popup: bool,
    pub show_link_popup: bool,
    pub c3_detail_focused: bool,
}

/// The help pages.
#[derive(Clone, Copy, PartialEq, Eq, Structural, Debug)]
pub enum HelpPage {
    Packets,
    SessionDetail,
    StatsDetail,
    Stats,
    Files,
    ArkimeSummary,
    ColumnEditor,
    Layouts,
    Views,
    Cont3xtStats,
    Cont3xtHistory,
    Cont3xtSettings,
    SelectOverview,
    LinkGroups,
    Cont3xtDetail,
    Users,
    Cont3xt,
    ParliamentDashboard,
    ParliamentIssues,
    ParliamentSettings,
    WiseStats,
    WiseQuery,
    Sessions,
}

/// The page for the state: the first of these that applies, in this order.
pub open spec fn spec_help_page(s: HelpState) -> HelpPage {
    let c3 = s.app_mode == AppMode::Cont3xt;
    let pl = s.app_mode == AppMode::Parliament;
    let ws = s.app_mode == AppMode::Wise;
    if s.packets_open {
        HelpPage::Packets
    } else if s.session_view == SessionView::Detail && s.active_tab == Tab::Sessions {
        HelpPage::SessionDetail
    } else if s.active_tab == Tab::Stats && s.stats_view == StatsView::Detail {
        HelpPage::StatsDetail
    } else if s.active_tab == Tab::Stats {
        HelpPage::Stats
    } else if s.active_tab == Tab::Files {
        HelpPage::Files
    } else if s.active_tab == Tab::Arkime {
        HelpPage::ArkimeSummary
    } else if s.show_column_editor {
        HelpPage::ColumnEditor
    } else if s.show_layout_popup {
        HelpPage::Layouts
    } else if s.show_view_popup {
        HelpPage::Views
    } else if c3 && s.active_tab == Tab::C3Stats {
        HelpPage::Cont3xtStats
    } else if c3 && s.active_tab == Tab::History {
        HelpPage::Cont3xtHistory
    } else if c3 && s.active_tab == Tab::Settings {
        HelpPage::Cont3xtSettings
    } else if s.show_overview_popup {
        HelpPage::SelectOverview
    } else if s.show_link_popup {
        HelpPage::LinkGroups
    } else if c3 && s.active_tab == Tab::Search && s.c3_detail_focused {
        HelpPage::Cont3xtDetail
    } else if s.active_tab == Tab::Users {
        HelpPage::Users
    } else if c3 {
        HelpPage::Cont3xt
    } else if pl && s.active_tab == Tab::Dashboard {
        HelpPage::ParliamentDashboard
    } else if pl && s.active_tab == Tab::Issues {
        HelpPage::ParliamentIssues
    } else if pl && s.active_tab == Tab::Settings {
        HelpPage::ParliamentSettings
    } else if ws && s.active_tab == Tab::WsStats {
        HelpPage::WiseStats
    } else if ws && s.active_tab == Tab::WsQuery {
        HelpPage::WiseQuery
    } else {
        HelpPage::Sessions
    }
}

/// The help page for the state of the screens.
pub fn help_page(s: &HelpState) -> (p: HelpPage)
    ensures
        p == spec_help_page(*s),
{
    let c3 = s.app_mode == AppMode::Cont3xt;
    let pl = s.app_mode == AppMode::Parliament;
    let ws = s.app_mode == AppMode::Wise;
    if s.packets_open {
        HelpPage::Packets
    } else if s.session_view == SessionView::Detail && s.active_tab == Tab::Sessions {
        HelpPage::SessionDetail
    } else if s.active_tab == Tab::Stats && s.stats_view == StatsView::Detail {
        HelpPage::StatsDetail
    } else if s.active_tab == Tab::Stats {
        HelpPage::Stats
    } else if s.active_tab == Tab::Files {
        HelpPage::Files
    } else if s.active_tab == Tab::Arkime {
        HelpPage::ArkimeSummary
    } else if s.show_column_editor {
        HelpPage::ColumnEditor
    } else if s.show_layout_popup {
        HelpPage::Layouts
    } else if s.show_view_popup {
        HelpPage::Views
    } else if c3 && s.active_tab == Tab::C3Stats {
        HelpPage::Cont3xtStats
    } else if c3 && s.active_tab == Tab::History {
        HelpPage::Cont3xtHistory
    } else if c3 && s.active_tab == Tab::Settings {
        HelpPage::Cont3xtSettings
    } else if s.show_overview_popup {
        HelpPage::SelectOverview
    } else if s.show_link_popup {
        HelpPage::LinkGroups
    } else if c3 && s.active_tab == Tab::Search && s.c3_detail_focused {
        HelpPage::Cont3xtDetail
    } else if s.active_tab == Tab::Users {
        HelpPage::Users
    } else if c3 {
        HelpPage::Cont3xt
    } else if pl && s.active_tab == Tab::Dashboard {
        HelpPage::ParliamentDashboard
    } else if pl && s.active_tab == Tab::Issues {
        HelpPage::ParliamentIssues
    } else if pl && s.active_tab == Tab::Settings {
        HelpPage::ParliamentSettings
    } else if ws && s.active_tab == Tab::WsStats {
        HelpPage::WiseStats
    } else if ws && s.active_tab == Tab::WsQuery {
        HelpPage::WiseQuery
    } else {
        HelpPage::Sessions
    }
}

pub open spec fn spec_help_title(p: HelpPage, tab: Tab) -> Seq<char> {
    match p {
        HelpPage::Packets => " Packets Help "@,
        HelpPage::SessionDetail => " Session Detail Help "@,
        HelpPage::StatsDetail => " Stats Detail Help "@,
        HelpPage::Stats => " Stats Help "@,
        HelpPage::Files => " Files Help "@,
        HelpPage::ArkimeSummary => " Arkime Summary Help "@,
        HelpPage::ColumnEditor => " Column Editor Help "@,
        HelpPage::Layouts => " Layouts Help "@,
        HelpPage::Views => " Views Help "@,
        HelpPage::Cont3xtStats => " Cont3xt Stats Help "@,
        HelpPage::Cont3xtHistory => " Cont3xt History Help "@,
        HelpPage::Cont3xtSettings => " Cont3xt Settings Help "@,
        HelpPage::SelectOverview => " Select Overview Help "@,
        HelpPage::LinkGroups => " Link Groups Help "@,
        HelpPage::Cont3xtDetail => " Cont3xt Detail Help "@,
        HelpPage::Users => " Users Help "@,
        HelpPage::Cont3xt => if tab == Tab::Search { " Cont3xt Results Help "@ } else { " Cont3xt Help "@ },
        HelpPage::ParliamentDashboard => " Parliament Dashboard Help "@,
        HelpPage::ParliamentIssues => " Parliament Issues Help "@,
        HelpPage::ParliamentSettings => " Parliament Settings Help "@,
        HelpPage::WiseStats => " WISE Stats Help "@,
        HelpPage::WiseQuery => " WISE Query Help "@,
        HelpPage::Sessions => " Sessions Help "@,
    }
}

/// The title of the help popup for a page (the Cont3xt page names the results on the
/// Search tab).
pub fn help_title(p: HelpPage, tab: Tab) -> (s: &'static str)
    ensures
        s@ == spec_help_title(p, tab),
{
    match p {
        HelpPage::Packets => " Packets Help ",
        HelpPage::SessionDetail => " Session Detail Help ",
        HelpPage::StatsDetail => " Stats Detail Help ",
        HelpPage::Stats => " Stats Help ",
        HelpPage::Files => " Files Help ",
        HelpPage::ArkimeSummary => " Arkime Summary Help ",
        HelpPage::ColumnEditor => " Column Editor Help ",
        HelpPage::Layouts => " Layouts Help ",
        HelpPage::Views => " Views Help ",
        HelpPage::Cont3xtStats => " Cont3xt Stats Help ",
        HelpPage::Cont3xtHistory => " Cont3xt History Help ",
        HelpPage::Cont3xtSettings => " Cont3xt Settings Help ",
        HelpPage::SelectOverview => " Select Overview Help ",
        HelpPage::LinkGroups => " Link Groups Help ",
        HelpPage::Cont3xtDetail => " Cont3xt Detail Help ",
        HelpPage::Users => " Users Help ",
        HelpPage::Cont3xt => if tab == Tab::Search { " Cont3xt Results Help " } else { " Cont3xt Help " },
        HelpPage::ParliamentDashboard => " Parliament Dashboard Help ",
        HelpPage::ParliamentIssues => " Parliament Issues Help ",
        HelpPage::ParliamentSettings => " Parliament Settings Help ",
        HelpPage::WiseStats => " WISE Stats Help ",
        HelpPage::WiseQuery => " WISE Query Help ",
        HelpPage::Sessions => " Sessions Help ",
    }
}

/// Where the help popup stands for a page of `lines` lines: 64 columns and two rows
/// more than the page, 4 fewer than the screen at most, centred.
pub open spec fn spec_help_area(lines: int, area: Area) -> Area {
    let aw: int = if area.width >= 4 { area.width - 4 } else { 0 };
    let ah: int = if area.height >= 4 { area.height - 4 } else { 0 };
    spec_center_popup(
        (if 64 <= aw { 64 } else { aw }) as u16,
        (if lines + 2 <= ah { lines + 2 } else { ah }) as u16,
        area,
    )
}

pub fn help_area(lines: usize, area: Area) -> (r: Area)
    requires
        lines + 2 <= u16::MAX,
        area.x + area.width <= u16::MAX,
        area.y + area.height <= u16::MAX,
    ensures
        r == spec_help_area(lines as int, area),
{
    let aw: u16 = if area.width >= 4 { area.width - 4 } else { 0 };
    let ah: u16 = if area.height >= 4 { area.height - 4 } else { 0 };
    let want: u16 = lines as u16 + 2;
    center_popup(if 64 <= aw { 64 } else { aw }, if want <= ah { want } else { ah }, area)
}

} // verus!
