use alkeme::app::c3_search::{C3SearchState, Cont3xtResult};
use alkeme::app::c3_tree::{c3_tree_rows, indicator_order, tree_order_of, C3Row};
use alkeme::app::cont3xt::{C3TreeItem, Cont3xtFocus};
use alkeme::json::JsonValue;

fn key(a: &str, b: &str) -> (String, String) {
    (a.to_string(), b.to_string())
}

fn result(itype: &str, indicator: &str, name: &str) -> Cont3xtResult {
    Cont3xtResult {
        itype: itype.to_string(),
        indicator: indicator.to_string(),
        name: name.to_string(),
        data: JsonValue::Null,
    }
}

fn link(itype: &str, indicator: &str, parent_query: &str, parent_itype: &str) -> Cont3xtResult {
    Cont3xtResult {
        itype: itype.to_string(),
        indicator: indicator.to_string(),
        name: String::new(),
        data: JsonValue::Object(vec![
            ("_link_parent_itype".to_string(), JsonValue::Str(parent_itype.to_string())),
            ("_link_parent_query".to_string(), JsonValue::Str(parent_query.to_string())),
        ]),
    }
}

fn describe(rows: &[C3Row]) -> Vec<String> {
    rows.iter()
        .map(|r| match r {
            C3Row::Header(d, t, q) => format!("{d}:{t} {q}"),
            C3Row::Item(d, i) => format!("{d}:#{i}"),
        })
        .collect()
}

#[test]
fn indicator_order_lists_each_key_once() {
    let init = vec![key("url", "http://a.example/x"), key("domain", "a.example")];
    let results = vec![key("domain", "a.example"), key("ip", "10.0.0.1"), key("ip", "10.0.0.1")];
    let entries = vec![(key("10.0.0.1", "ip"), vec![key("a.example", "domain"), key("b.example", "domain")])];
    let order = indicator_order(&init, &results, &entries);
    assert_eq!(order, vec![
        key("url", "http://a.example/x"),
        key("domain", "a.example"),
        key("ip", "10.0.0.1"),
        key("domain", "b.example"),
    ]);
}

#[test]
fn tree_nests_derived_indicators_under_their_parents() {
    let init = vec![key("url", "http://a.example/x")];
    let results = vec![key("ip", "10.0.0.1"), key("domain", "a.example"), key("ip", "10.0.0.1")];
    let entries = vec![
        (key("a.example", "domain"), vec![key("http://a.example/x", "url")]),
        (key("10.0.0.1", "ip"), vec![key("a.example", "domain")]),
    ];
    let rows = c3_tree_rows(&init, &results, &entries).expect("no cycle");
    assert_eq!(describe(&rows), vec![
        "0:url http://a.example/x",
        "2:domain a.example",
        "4:#1",
        "4:ip 10.0.0.1",
        "6:#0",
        "6:#2",
    ]);
    let (items, roots) = tree_order_of(&rows);
    assert_eq!(roots, vec![0]);
    assert_eq!(items.len(), 6);
    assert!(matches!(&items[0], C3TreeItem::Indicator(t, q) if t == "url" && q == "http://a.example/x"));
    assert!(matches!(&items[2], C3TreeItem::Result(1)));
    assert_eq!(items[5].result_idx(), Some(2));
}

#[test]
fn tree_without_links_lists_each_indicator_as_a_root() {
    let results = vec![key("domain", "x.example"), key("email", "me@x.example")];
    let rows = c3_tree_rows(&vec![], &results, &vec![]).unwrap();
    assert_eq!(describe(&rows), vec!["0:domain x.example", "2:#0", "0:email me@x.example", "2:#1"]);
    let (_, roots) = tree_order_of(&rows);
    assert_eq!(roots, vec![0, 2]);
}

#[test]
fn tree_with_a_cycle_under_a_root_is_refused() {
    let results = vec![key("domain", "root.example"), key("ip", "1.1.1.1"), key("ip", "2.2.2.2")];
    let entries = vec![
        (key("1.1.1.1", "ip"), vec![key("root.example", "domain"), key("2.2.2.2", "ip")]),
        (key("2.2.2.2", "ip"), vec![key("1.1.1.1", "ip")]),
    ];
    assert!(c3_tree_rows(&vec![], &results, &entries).is_none());
}

#[test]
fn header_labels_read_back_with_the_itype_in_lower_case() {
    let rows = vec![C3Row::Header(0, "Domain".to_string(), "x y".to_string()), C3Row::Header(2, "two words".to_string(), "q".to_string())];
    let (items, roots) = tree_order_of(&rows);
    assert_eq!(roots, vec![0]);
    assert!(matches!(&items[0], C3TreeItem::Indicator(t, q) if t == "domain" && q == "x y"));
    assert!(matches!(&items[1], C3TreeItem::Indicator(t, q) if t == "two" && q == "WORDS q"));
}

#[test]
fn streamed_answers_split_into_results_and_links() {
    let mut st = C3SearchState::new();
    let items = vec![
        result("domain", "a.example", "whois"),
        link("ip", "10.0.0.1", "a.example", "domain"),
        link("ip", "10.0.0.1", "b.example", "domain"),
        result("ip", "10.0.0.1", "geo"),
    ];
    let first_two: Vec<Cont3xtResult> = items[..2].iter().map(|r| r.duplicate()).collect();
    let consumed = st.drain_c3_results(&first_two, 0);
    assert_eq!(consumed, 2);
    let consumed = st.drain_c3_results(&items, consumed);
    assert_eq!(consumed, 4);
    assert_eq!(st.results.len(), 2);
    assert_eq!(st.results[1].name, "geo");
    assert_eq!(st.indicator_parents.len(), 1);
    assert_eq!(st.indicator_parents[0].0, key("10.0.0.1", "ip"));
    assert_eq!(st.indicator_parents[0].1, vec![key("a.example", "domain"), key("b.example", "domain")]);
    let rows = st.rebuild_tree().unwrap();
    assert_eq!(describe(&rows), vec!["0:domain a.example", "2:#0", "2:ip 10.0.0.1", "4:#1", "0:domain b.example", "2:ip 10.0.0.1", "4:#1"]);
    assert_eq!(st.tree_roots, vec![0, 4]);
}

#[test]
fn search_request_carries_only_what_applies() {
    let mut st = C3SearchState::new();
    st.pending_search = true;
    let body = st.start_search("example.com", &vec!["A".to_string()]);
    assert_eq!(body, "{\"query\":\"example.com\"}");
    assert!(st.searching);
    assert!(!st.pending_search);

    let mut st = C3SearchState::new();
    st.no_cache = true;
    st.tags = vec!["t1".to_string()];
    st.active_view_id = Some("v9".to_string());
    st.disabled_integrations = vec!["B".to_string()];
    st.results.push(result("ip", "1.2.3.4", "x"));
    let body = st.start_search("1.2.3.4", &vec!["A".to_string(), "C".to_string()]);
    assert_eq!(body, "{\"doIntegrations\":[\"A\",\"C\"],\"query\":\"1.2.3.4\",\"skipCache\":1,\"tags\":[\"t1\"],\"viewId\":\"v9\"}");
    assert!(!st.no_cache);
    assert!(st.results.is_empty());
}

#[test]
fn progress_and_completion_update_the_search() {
    let mut st = C3SearchState::new();
    st.searching = true;
    st.apply_progress(0, 3);
    assert_eq!((st.search_total, st.search_sent), (0, 3));
    st.apply_progress(12, 5);
    assert_eq!((st.search_total, st.search_sent), (12, 5));
    st.results.push(result("ip", "1.2.3.4", "x"));
    st.focus = Cont3xtFocus::Detail;
    let msg = st.finish_search(Ok((14, "ip".to_string(), vec![key("ip", "1.2.3.4")])));
    assert_eq!(msg, "Search complete: 1 integrations returned data");
    assert_eq!(st.search_total, 14);
    assert_eq!(st.focus, Cont3xtFocus::Results);
    assert!(!st.searching);
    let msg = st.finish_search(Err("timeout".to_string()));
    assert_eq!(msg, "Search error: timeout");
}
