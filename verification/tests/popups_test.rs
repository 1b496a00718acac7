use alkeme::ui::c3_results::{indicator_detail_title, result_detail_title, results_placeholder, results_scroll, results_title};
use alkeme::app::parliament::PlClusterEditorField;
use alkeme::app::types::{AppMode, SessionView, StatsView, Tab};
use alkeme::ui::cluster_detail::{cluster_detail_lines, ClusterInfo, ClusterStatsInfo, IssueInfo};
use alkeme::ui::cluster_editor::{cluster_editor_title, cluster_field_line, desc_cursor};
use alkeme::ui::help::{help_area, help_page, help_title, HelpPage, HelpState};
use alkeme::ui::layout::Area;
use alkeme::ui::link_popup::{link_list_height, link_popup_rows, link_popup_title, LinkLine};
use alkeme::ui::popups::integration_popup;
use alkeme::ui::view_popup::{view_list_lines, view_popup_area, view_popup_title, SavedViewInfo, ViewLine};

fn s(x: &str) -> String {
    x.to_string()
}

#[test]
fn integration_popup_filters_counts_and_scrolls() {
    let names = vec![s("VirusTotal"), s("Shodan"), s("virusbay"), s("DNS")];
    let disabled = vec![s("virusbay")];
    let area = Area { x: 0, y: 0, width: 100, height: 10 };
    let v = integration_popup(&names, &disabled, "VIRUS", 1, area);
    assert_eq!(v.title, " Integrations (3/4) ");
    assert_eq!(v.area, Area { x: 25, y: 2, width: 50, height: 6 });
    assert_eq!(v.scroll, 0);
    let rows: Vec<(usize, bool, bool)> = v.rows.iter().map(|r| (r.index, r.disabled, r.selected)).collect();
    assert_eq!(rows, vec![(0, false, false), (2, true, true)]);
    let small = Area { x: 0, y: 0, width: 100, height: 7 };
    let v = integration_popup(&names, &disabled, "", 3, small);
    assert_eq!(v.area.height, 3);
    assert_eq!(v.scroll, 3);
    assert_eq!(v.rows.len(), 1);
    assert_eq!(v.rows[0].name, "DNS");
}

#[test]
fn description_cursor_wraps_and_scrolls() {
    assert_eq!(desc_cursor("abcdef", 6, 4, 3), (1, 2, 0));
    assert_eq!(desc_cursor("ab\ncd\nef\ngh", 100, 10, 2), (3, 2, 2));
    assert_eq!(desc_cursor("abc", 1, 0, 1), (0, 1, 0));
}

#[test]
fn cluster_editor_lines() {
    assert_eq!(cluster_editor_title(true), " New Cluster ");
    assert_eq!(cluster_field_line(PlClusterEditorField::HideMonitoring, true, true, "", ""), "▸ Hide Monitoring: ☑ Yes");
    assert_eq!(cluster_field_line(PlClusterEditorField::Type, false, false, "", ""), "  Type: normal (Enter to cycle)");
    assert_eq!(cluster_field_line(PlClusterEditorField::Url, false, false, "", "http://x"), "  URL:              http://x");
}

#[test]
fn cluster_detail_shows_stats_and_issues() {
    let c = ClusterInfo { group_title: s("G"), title: s("C"), description: s(""), url: s("http://u"), cluster_type: s("") };
    let st = ClusterStatsInfo {
        status: s("green"), es_version: s(""), bps_text: s("1.0 Kbps"), drops_per_sec: 0, monitoring: 12,
        arkime_nodes: 2, data_nodes: 3, total_nodes: 4, health_error: s(""), stats_error: s("")
    };
    let issue = IssueInfo { severity: s("red"), title: s("T"), message: s("M"), node: s(""), first: s("f"), last: s("l") };
    let d = cluster_detail_lines(&c, &Some(st), &Some(vec![issue]));
    assert_eq!(d.title, " G - C (Esc to close) ");
    assert_eq!(d.lines, vec![
        "Group: G", "Cluster: C", "URL: http://u", "", "── Stats ──", "  Health: green", "  Bytes/sec: 1.0 Kbps",
        "  Drops/sec: 0", "  Monitoring: 12 sessions", "  Arkime Nodes: 2", "  ES Nodes: 3 data / 4 total", "",
        "── Issues (1) ──", "  red T: M", "    First: f  Last: l",
    ]);
    let d = cluster_detail_lines(&c, &None, &None);
    assert_eq!(d.lines.last().unwrap(), "── No Issues ──");
}

#[test]
fn link_rows_group_and_scroll() {
    let groups = vec![s("A"), s("A"), s("B")];
    let (scroll, rows) = link_popup_rows(&groups, 2, 10);
    assert_eq!(scroll, 0);
    assert_eq!(rows, vec![LinkLine::Header(0), LinkLine::Item(0), LinkLine::Item(1), LinkLine::Spacer, LinkLine::Header(2), LinkLine::Item(2)]);
    let (scroll, rows) = link_popup_rows(&groups, 2, 2);
    assert_eq!(scroll, 4);
    assert_eq!(rows, vec![LinkLine::Header(2), LinkLine::Item(2)]);
    assert_eq!(link_popup_title("1.2.3.4", "ip", 3), " Links for 1.2.3.4 (ip) — 3 links ");
    assert_eq!(link_list_height(Area { x: 0, y: 0, width: 100, height: 40 }, true, true), 24);
}

#[test]
fn view_popup_lists_views() {
    let views = vec![
        SavedViewInfo { id: s("1"), name: s("web"), expression: s("port == 80"), shared: false },
        SavedViewInfo { id: s("2"), name: s("dns"), expression: s("port == 53 && protocols == dns"), shared: true },
    ];
    let lines = view_list_lines(&views, &vec![0, 1], 3, &Some(s("2")), false, "", 24);
    assert_eq!(lines.len(), 7);
    match &lines[1] {
        ViewLine::Choice(t, sel) => { assert_eq!(t, "✖ Clear Active View"); assert!(!sel); }
        _ => panic!("choice expected"),
    }
    match &lines[3] {
        ViewLine::View { index, selected, active, expr } => {
            assert_eq!((*index, *selected, *active, *expr), (0, false, false, Some((10, false))));
        }
        _ => panic!("view expected"),
    }
    match &lines[4] {
        ViewLine::View { index, selected, active, expr } => {
            assert_eq!((*index, *selected, *active, *expr), (1, true, true, Some((10, true))));
        }
        _ => panic!("view expected"),
    }
    assert_eq!(view_popup_area(2, Area { x: 0, y: 0, width: 80, height: 30 }), Area { x: 10, y: 10, width: 60, height: 10 });
    assert_eq!(view_popup_title(alkeme::app::types::ViewPopupMode::SaveInput), " Save View ");
}

#[test]
fn help_page_follows_the_screen() {
    let base = HelpState {
        app_mode: AppMode::Viewer, active_tab: Tab::Sessions, packets_open: false, session_view: SessionView::List,
        stats_view: StatsView::List, show_column_editor: false, show_layout_popup: false, show_view_popup: false,
        show_overview_popup: false, show_link_popup: false, c3_detail_focused: false,
    };
    assert_eq!(help_page(&base), HelpPage::Sessions);
    assert_eq!(help_page(&HelpState { packets_open: true, ..base }), HelpPage::Packets);
    assert_eq!(help_page(&HelpState { active_tab: Tab::Stats, stats_view: StatsView::Detail, ..base }), HelpPage::StatsDetail);
    let c3 = HelpState { app_mode: AppMode::Cont3xt, active_tab: Tab::Search, ..base };
    assert_eq!(help_page(&c3), HelpPage::Cont3xt);
    assert_eq!(help_title(HelpPage::Cont3xt, Tab::Search), " Cont3xt Results Help ");
    assert_eq!(help_page(&HelpState { c3_detail_focused: true, ..c3 }), HelpPage::Cont3xtDetail);
    assert_eq!(help_area(30, Area { x: 0, y: 0, width: 100, height: 50 }), Area { x: 18, y: 9, width: 64, height: 32 });
}

#[test]
fn results_pane_texts_and_scroll() {
    assert_eq!(results_placeholder(false, "", false).unwrap(), "  Enter an indicator to search (IP, domain, hash, email, ...)");
    assert_eq!(results_placeholder(false, "1.1.1.1", true).unwrap(), "  Searching...");
    assert_eq!(results_placeholder(false, "1.1.1.1", false).unwrap(), "  No results for: 1.1.1.1");
    assert_eq!(results_placeholder(true, "1.1.1.1", false), None);
    assert_eq!(results_title(12), " Results (12) ");
    assert_eq!(results_scroll(50, 10, 4), (9, 6));
    assert_eq!(results_scroll(2, 10, 4), (2, 0));
    assert_eq!(results_scroll(3, 0, 4), (0, 0));
    assert_eq!(result_detail_title("VT", "1.1.1.1", true), " VT — 1.1.1.1  [RAW] ");
    assert_eq!(indicator_detail_title("ip", "1.1.1.1"), " ip — 1.1.1.1 ");
}
