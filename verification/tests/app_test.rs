use alkeme::app::columns::{default_columns, files_all_columns, files_default_fields, stats_columns_from_fields,
    stats_tab_all_columns, stats_tab_default_fields};
use alkeme::app::run_loop::{key_outcome, refresh_due, window_title, KeyOutcome};
use alkeme::app::shards::node_order;
use alkeme::app::types::{AppMode, ColumnEditorMode, InputMode, SessionView, ShardsShow, StatsTab, StatsView,
    SummarySort, Tab};
use alkeme::app::viewer::{App, SummaryItem, ViewerState};
use alkeme::app::viewer_data::parse_layouts;
use alkeme::app::wise::{WiseState, WsQueryResult, WsSourceStats, WsStats, WsTypeStats};
use alkeme::json::JsonValue;
use alkeme::ui::json_lines::json_to_string;
use alkeme::ui::shards_grid::{shard_badge, shards_layout, ShardBadge};

fn s(x: &str) -> JsonValue {
    JsonValue::Str(x.to_string())
}

fn n(x: &str) -> JsonValue {
    JsonValue::Number(x.to_string())
}

fn obj(members: Vec<(&str, JsonValue)>) -> JsonValue {
    JsonValue::Object(members.into_iter().map(|(k, v)| (k.to_string(), v)).collect())
}

fn arr(items: Vec<JsonValue>) -> JsonValue {
    JsonValue::Array(items)
}

fn new_app() -> App {
    let mut stats_columns = Vec::new();
    for tab in StatsTab::all() {
        if tab.col_index().is_some() {
            let all = stats_tab_all_columns(tab);
            stats_columns.push(stats_columns_from_fields(&stats_tab_default_fields(tab), &all));
        }
    }
    let files_all = files_all_columns();
    let viewer = ViewerState {
        sessions: Vec::new(),
        sessions_total: 0,
        sessions_filtered: 0,
        selected_session: 0,
        page_start: 0,
        columns: default_columns(),
        session_fields: Vec::new(),
        sort_column: 0,
        sort_desc: true,
        all_fields: Vec::new(),
        field_friendly_map: Vec::new(),
        field_filter: String::new(),
        show_column_editor: false,
        column_editor_available: Vec::new(),
        column_editor_selected: 0,
        column_editor_mode: ColumnEditorMode::Browse,
        column_editor_filter: String::new(),
        column_editor_filter_cursor: 0,
        saved_layouts: Vec::new(),
        session_detail: None,
        session_view: SessionView::List,
        summary_field: "ip.src".to_string(),
        pending_summary_fetch: false,
        summary_data: Vec::new(),
        summary_sort: SummarySort::Sessions,
        summary_sort_desc: true,
        summary_selected: 3,
        summary_table_selected: None,
        stats_tab: StatsTab::Capture,
        stats_columns,
        stats_state_loaded: vec![false; 5],
        stats_sort_column: 0,
        stats_sort_desc: false,
        stats_column_editor_items: Vec::new(),
        stats_column_editor_selected: 0,
        stats_column_editor_mode: ColumnEditorMode::Browse,
        stats_column_editor_filter: String::new(),
        stats_column_editor_filter_cursor: 0,
        stats_saved_shareables: Vec::new(),
        stats_data: Vec::new(),
        stats_total: 0,
        stats_filtered: 0,
        stats_selected: 4,
        stats_detail: None,
        stats_view: StatsView::List,
        files_columns: stats_columns_from_fields(&files_default_fields(), &files_all),
        files_state_loaded: false,
        files_sort_column: 0,
        files_sort_desc: false,
        files_column_editor_items: Vec::new(),
        files_column_editor_selected: 0,
        files_column_editor_mode: ColumnEditorMode::Browse,
        files_column_editor_filter: String::new(),
        files_column_editor_filter_cursor: 0,
        files_saved_shareables: Vec::new(),
        files_data: Vec::new(),
        files_total: 0,
        files_filtered: 0,
        files_selected: 5,
        files_detail: None,
        files_view: StatsView::List,
        shards_show: ShardsShow::All,
        shards_nodes: Vec::new(),
        shards_indices: Vec::new(),
        shards_data: JsonValue::Null,
        shards_selected_row: 0,
        shards_loaded: false,
        shards_hscroll: 0,
        shards_detail: None,
        shards_sub_detail: None,
    };
    App {
        viewer,
        user: JsonValue::Null,
        show_loading: true,
        status_msg: String::new(),
        active_tab: Tab::Stats,
        wise: WiseState::new(),
    }
}

#[test]
fn layouts_come_from_arrays_and_objects() {
    let a = obj(vec![
        ("columns", arr(vec![s("firstPacket"), n("3"), s("ip.src")])),
        ("name", s("mine")),
        ("order", arr(vec![arr(vec![s("lastPacket"), s("desc")])])),
    ]);
    let b = obj(vec![("name", s(""))]);
    let c = obj(vec![("name", s("bare")), ("order", arr(vec![arr(vec![s("f")])]))]);
    let layouts = parse_layouts(&arr(vec![a, b, c]));
    assert_eq!(layouts.len(), 2);
    assert_eq!(layouts[0].name, "mine");
    assert_eq!(layouts[0].columns, vec!["firstPacket", "ip.src"]);
    assert_eq!((layouts[0].sort_field.as_str(), layouts[0].sort_dir.as_str()), ("lastPacket", "desc"));
    assert_eq!((layouts[1].sort_field.as_str(), layouts[1].sort_dir.as_str()), ("f", "asc"));
    let keyed = obj(vec![("x", obj(vec![("name", s("x"))]))]);
    let layouts = parse_layouts(&keyed);
    assert_eq!(layouts.len(), 1);
    assert_eq!((layouts[0].sort_field.as_str(), layouts[0].sort_dir.as_str()), ("", ""));
    assert!(parse_layouts(&n("1")).is_empty());
}

#[test]
fn stats_response_fills_rows_and_totals() {
    let mut app = new_app();
    let doc = obj(vec![
        ("data", arr(vec![obj(vec![("nodeName", s("a"))]), obj(vec![("nodeName", s("b"))])])),
        ("recordsFiltered", n("2")),
        ("recordsTotal", n("9")),
    ]);
    app.vr_apply_stats_response(&doc);
    assert_eq!(app.viewer.stats_data.len(), 2);
    assert_eq!((app.viewer.stats_total, app.viewer.stats_filtered, app.viewer.stats_selected), (9, 2, 0));
    assert_eq!(app.status_msg, "Capture Stats: 2 items");
    app.vr_apply_stats_response(&obj(vec![("recordsTotal", s("x"))]));
    assert_eq!((app.viewer.stats_data.len(), app.viewer.stats_total), (0, 0));
    assert_eq!(app.status_msg, "Capture Stats: 0 items");
}

#[test]
fn files_response_keeps_a_valid_selection() {
    let mut app = new_app();
    app.status_msg = "Fetching files...".to_string();
    let doc = obj(vec![("data", arr(vec![n("1"), n("2")])), ("recordsTotal", n("2"))]);
    app.vr_apply_files_response(&doc);
    assert_eq!(app.viewer.files_selected, 0);
    assert_eq!(app.viewer.files_total, 2);
    assert_eq!(app.status_msg, "");
    app.viewer.files_selected = 1;
    app.vr_apply_files_response(&doc);
    assert_eq!(app.viewer.files_selected, 1);
}

#[test]
fn saved_column_state_reads_back() {
    let mut app = new_app();
    app.viewer.stats_sort_desc = true;
    let state = app.vr_stats_state_json();
    let text = json_to_string(&state);
    assert!(text.starts_with("{\"order\":[[\"nodeName\",\"desc\"]],\"visibleHeaders\":[\"nodeName\""));
    let before: Vec<String> = app.viewer.stats_columns[0].iter().map(|c| c.field.clone()).collect();
    app.viewer.stats_sort_desc = false;
    app.vr_apply_stats_state(StatsTab::Capture, &state);
    let after: Vec<String> = app.viewer.stats_columns[0].iter().map(|c| c.field.clone()).collect();
    assert_eq!(before, after);
    assert!(app.viewer.stats_sort_desc);
    assert_eq!(App::stats_state_name(StatsTab::Capture), Some("captureStatsCols"));
    assert_eq!(App::stats_state_name(StatsTab::DBShards), Some("esShardsCols"));
    assert_eq!(App::stats_state_name(StatsTab::CaptureGraphs), None);
}

#[test]
fn column_state_without_known_columns_changes_nothing() {
    let mut app = new_app();
    let before = app.viewer.files_columns.len();
    let state = obj(vec![("visibleHeaders", arr(vec![s("noSuchField")]))]);
    app.vr_apply_files_state(&state);
    assert_eq!(app.viewer.files_columns.len(), before);
    app.vr_apply_files_state(&n("4"));
    assert_eq!(app.viewer.files_columns.len(), before);
    let state = obj(vec![
        ("order", arr(vec![arr(vec![s("num"), s("desc")])])),
        ("visibleHeaders", arr(vec![s("num"), s("node")])),
    ]);
    app.vr_apply_files_state(&state);
    let fields: Vec<&str> = app.viewer.files_columns.iter().map(|c| c.field.as_str()).collect();
    assert_eq!(fields, vec!["num", "node"]);
    assert!(app.viewer.files_sort_desc);
    assert_eq!(app.viewer.files_sort_column, 0);
}

#[test]
fn sessions_page_and_detail() {
    let mut app = new_app();
    app.viewer.page_start = 50;
    app.vr_apply_sessions_response(vec![obj(vec![("id", s("abc"))])], 100, 51, None);
    assert_eq!(app.status_msg, "Showing 51-51 of 51 sessions");
    assert_eq!(app.vr_session_detail_request(), Some("abc".to_string()));
    assert_eq!(app.status_msg, "Fetching session detail...");
    app.vr_apply_sessions_response(vec![], 0, 0, Some("bad field".to_string()));
    assert_eq!(app.status_msg, "Expression error: bad field");
    assert_eq!(app.viewer.sessions.len(), 1);
    app.viewer.sessions = vec![obj(vec![("node", s("x"))])];
    assert_eq!(app.vr_session_detail_request(), None);
    assert_eq!(app.status_msg, "No session id");
    let data = obj(vec![("bytesCnt", n("1")), ("ip", s("1.1.1.1")), ("packetPos", arr(vec![])), ("port", n("80"))]);
    app.vr_apply_session_detail(data);
    let d = app.viewer.session_detail.as_ref().unwrap();
    assert_eq!(d.total_rows, 2);
    assert_eq!(app.viewer.session_view, SessionView::Detail);
    assert_eq!(app.status_msg, "Session detail loaded");
}

#[test]
fn nodes_put_unassigned_first() {
    let keys: Vec<String> = vec!["node-b", "Unassigned", "node-a", "Alpha"].into_iter().map(String::from).collect();
    assert_eq!(node_order(&keys), vec!["Unassigned", "Alpha", "node-a", "node-b"]);
}

fn shards_doc() -> JsonValue {
    let shard = |num: &str, prirep: &str, state: &str| {
        obj(vec![("prirep", s(prirep)), ("shard", n(num)), ("state", s(state))])
    };
    obj(vec![
        ("indices", arr(vec![
            obj(vec![
                ("name", s("logs-1")),
                ("nodes", obj(vec![
                    ("Unassigned", arr(vec![shard("1", "r", "UNASSIGNED")])),
                    ("es1", arr(vec![shard("0", "p", "STARTED"), shard("1", "p", "STARTED")])),
                ])),
            ]),
            obj(vec![("name", s("logs-2"))]),
        ])),
        ("nodes", obj(vec![("Unassigned", obj(vec![])), ("es1", obj(vec![])), ("es0", obj(vec![]))])),
    ])
}

#[test]
fn shards_grid_and_detail() {
    let mut app = new_app();
    app.vr_apply_shards_response(&shards_doc());
    assert_eq!(app.viewer.shards_nodes, vec!["Unassigned", "es0", "es1"]);
    assert_eq!(app.viewer.shards_indices, vec!["logs-1", "logs-2"]);
    assert!(app.viewer.shards_loaded);
    assert_eq!(app.status_msg, "DB Shards: 2 indices, 3 nodes [All]");
    app.vr_open_shards_detail();
    let detail = app.viewer.shards_detail.as_ref().unwrap();
    assert_eq!(
        json_to_string(&detail.data),
        "{\"index\":\"logs-1\",\"shards\":[{\"node\":\"Unassigned\",\"prirep\":\"r\",\"shard\":1,\"state\":\"UNASSIGNED\"},{\"node\":\"es1\",\"prirep\":\"p\",\"shard\":0,\"state\":\"STARTED\"},{\"node\":\"es1\",\"prirep\":\"p\",\"shard\":1,\"state\":\"STARTED\"}]}"
    );
    let target = app.vr_shard_explain_target().unwrap();
    assert_eq!((target.index.as_str(), target.shard_num.as_str(), target.is_primary), ("logs-1", "1", false));
    app.viewer.shards_detail.as_mut().unwrap().filter = "ES1 P".to_string();
    app.viewer.shards_detail.as_mut().unwrap().scroll = 1;
    let target = app.vr_shard_explain_target().unwrap();
    assert_eq!((target.shard_num.as_str(), target.is_primary), ("1", true));
    app.viewer.shards_detail.as_mut().unwrap().scroll = 2;
    assert!(app.vr_shard_explain_target().is_none());
    app.vr_apply_shard_explain(&target.shard, obj(vec![("error", s("none"))]));
    let sub = app.viewer.shards_sub_detail.as_ref().unwrap();
    assert_eq!(
        json_to_string(&sub.data),
        "{\"_explain\":{\"error\":\"none\"},\"node\":\"es1\",\"prirep\":\"p\",\"shard\":1,\"state\":\"STARTED\"}"
    );
    app.viewer.shards_selected_row = 1;
    app.viewer.shards_detail = None;
    app.vr_open_shards_detail();
    let detail = app.viewer.shards_detail.as_ref().unwrap();
    assert_eq!(json_to_string(&detail.data), "{\"index\":\"logs-2\",\"shards\":[]}");
}

#[test]
fn shard_badges_and_grid_layout() {
    let (t, k) = shard_badge(&obj(vec![("prirep", s("p")), ("shard", n("3")), ("state", s("STARTED"))]));
    assert_eq!((t.as_str(), k), ("3", ShardBadge::Primary));
    let (t, k) = shard_badge(&obj(vec![("shard", s("x")), ("state", s("STARTED"))]));
    assert_eq!((t.as_str(), k), ("x", ShardBadge::Replica));
    let (t, k) = shard_badge(&obj(vec![("state", s("INITIALIZING"))]));
    assert_eq!((t.as_str(), k), ("?", ShardBadge::Down));
    let indices: Vec<String> = vec!["a".to_string(), "a-much-longer-index".to_string()];
    let nodes: Vec<String> = vec!["Unassigned".to_string(), "n1".to_string(), "node-two".to_string()];
    let l = shards_layout(&indices, &nodes, 40, 10, 0, 8);
    assert_eq!(l.index_col_width, 20);
    assert_eq!(l.node_widths, vec![11, 6, 9]);
    assert_eq!(l.visible_nodes, 2);
    assert_eq!(l.hscroll, 0);
    assert_eq!((l.visible_rows, l.scroll_top), (6, 3));
    let l = shards_layout(&vec![], &nodes, 200, 3, 9, 0);
    assert_eq!(l.index_col_width, 8);
    assert_eq!(l.visible_nodes, 1);
    assert_eq!(l.hscroll, 2);
    assert_eq!((l.visible_rows, l.scroll_top), (0, 1));
}

#[test]
fn summary_arrival_sorts_and_reports() {
    let mut app = new_app();
    let item = |v: &str, sessions: u64| SummaryItem { item: s(v), sessions, packets: 0, bytes: 0 };
    app.vr_apply_summary(vec![item("a", 1), item("b", 5), item("c", 3)]);
    let order: Vec<u64> = app.viewer.summary_data.iter().map(|i| i.sessions).collect();
    assert_eq!(order, vec![5, 3, 1]);
    assert_eq!(app.viewer.summary_selected, 0);
    assert_eq!(app.viewer.summary_table_selected, Some(0));
    assert!(!app.show_loading);
    assert_eq!(app.status_msg, "Summary: 3 items for ip.src");
}

#[test]
fn loop_decisions() {
    assert_eq!(window_title(AppMode::Viewer, "prod"), "Alkeme - Viewer - prod");
    assert_eq!(window_title(AppMode::Wise, "prod"), "Alkeme - WISE");
    let r = refresh_due(AppMode::Viewer, Tab::Stats, InputMode::Normal, 30, 0, 0);
    assert!(r.stats && !r.parliament && !r.wise);
    let r = refresh_due(AppMode::Viewer, Tab::Stats, InputMode::Expression, 99, 99, 99);
    assert!(!r.stats);
    let r = refresh_due(AppMode::Parliament, Tab::Issues, InputMode::Normal, 0, 31, 0);
    assert!(r.parliament && r.parliament_issues);
    let r = refresh_due(AppMode::Wise, Tab::WsStats, InputMode::Normal, 0, 0, 29);
    assert!(!r.wise);
    assert_eq!(key_outcome(true, false, true, InputMode::Expression, true, true), KeyOutcome::Quit);
    assert_eq!(key_outcome(false, true, false, InputMode::Normal, false, true), KeyOutcome::ReturnToParliament);
    assert_eq!(key_outcome(false, true, false, InputMode::Normal, false, false), KeyOutcome::Quit);
    assert_eq!(key_outcome(false, true, true, InputMode::Normal, false, false), KeyOutcome::Handle);
}

#[test]
fn wise_results_and_messages() {
    let mut app = new_app();
    assert!(!app.ws_query_ready());
    assert_eq!(app.status_msg, "Enter a value to query");
    app.wise.query_value = "1.2.3.4".to_string();
    assert!(app.ws_query_ready());
    app.ws_apply_query_results(vec![]);
    assert_eq!(app.status_msg, "No results found");
    app.ws_apply_query_results(vec![WsQueryResult { field: "f".to_string(), value: "v".to_string() }]);
    assert_eq!(app.status_msg, "1 results");
    let stats = WsStats {
        sources: vec![WsSourceStats { name: "a".to_string() }, WsSourceStats { name: "b".to_string() }],
        types: vec![WsTypeStats { name: "ip".to_string() }],
    };
    app.ws_apply_stats(stats);
    assert_eq!(app.status_msg, "2 sources, 1 types");
    assert_eq!(app.ws_filtered_sources().len(), 2);
}

#[test]
fn stats_state_loads_on_first_visit_only() {
    let mut app = new_app();
    assert!(app.vr_init_stats_tab());
    assert_eq!(app.viewer.stats_state_loaded, vec![true, false, false, false, false]);
    assert!(!app.vr_init_stats_tab());
    app.viewer.stats_tab = StatsTab::DBRecovery;
    assert!(app.vr_init_stats_tab());
    assert!(app.viewer.stats_state_loaded[4]);
    app.viewer.stats_tab = StatsTab::DBShards;
    assert!(!app.vr_init_stats_tab());
    assert_eq!(app.viewer.stats_state_loaded, vec![true, false, false, false, true]);
}

#[test]
fn files_state_loads_on_first_visit_only() {
    let mut app = new_app();
    assert!(app.vr_init_files_tab());
    assert!(app.viewer.files_state_loaded);
    assert!(!app.vr_init_files_tab());
}

#[test]
fn refresh_fetches_sessions_except_on_arkime_tab() {
    let mut app = new_app();
    app.show_loading = false;
    app.active_tab = Tab::Sessions;
    assert!(app.refresh_for_active_tab());
    assert!(!app.show_loading);
    app.active_tab = Tab::Arkime;
    assert!(!app.refresh_for_active_tab());
    assert!(app.show_loading);
    assert!(app.viewer.pending_summary_fetch);
}

#[test]
fn stats_columns_live_in_the_col_index_slot() {
    let mut app = new_app();
    app.viewer.stats_tab = StatsTab::DBIndices;
    let slot: Vec<String> = app.viewer.stats_columns[2].iter().map(|c| c.field.clone()).collect();
    let active: Vec<String> = app.vr_stats_active_columns().iter().map(|c| c.field.clone()).collect();
    assert_eq!(active, slot);
    assert_eq!(active[0], "index");
    app.viewer.stats_tab = StatsTab::CaptureGraphs;
    assert!(app.vr_stats_active_columns().is_empty());
    assert_eq!(app.vr_stats_sort_field(), "nodeName");
}

#[test]
fn files_editor_unchanged_keeps_the_columns() {
    let mut app = new_app();
    app.viewer.files_sort_column = 3;
    let before: Vec<String> = app.viewer.files_columns.iter().map(|c| c.field.clone()).collect();
    app.vr_files_build_column_editor();
    app.vr_files_apply_column_editor();
    let after: Vec<String> = app.viewer.files_columns.iter().map(|c| c.field.clone()).collect();
    assert_eq!(before, after);
    assert_eq!(app.viewer.files_sort_column, 0);
}
