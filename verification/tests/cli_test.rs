use alkeme::app::types::AppMode;
use alkeme::cli::{auth_mode, credentials, defers_prompts, first_line, mode_from_arg, mode_from_server, parse_tags,
    pipe_command, save_json_check, Ask, AuthMode};
use alkeme::ui::json_lines::get_nested_value;
use alkeme::ui::layout::{center_popup, text_input_view, Area};
use alkeme::json::JsonValue;
use alkeme::ui::sessions_view::{detail_fields, detail_scroll, detail_value_text, friendly_name, session_cell_text, sessions_title};

#[test]
fn auth_modes_by_name() {
    assert_eq!(auth_mode("digest"), AuthMode::Digest);
    assert_eq!(auth_mode("okta"), AuthMode::Okta);
    assert_eq!(auth_mode("none"), AuthMode::NoAuth);
    assert_eq!(auth_mode("Basic"), AuthMode::NoAuth);
    assert!(defers_prompts(AuthMode::Web));
    assert!(!defers_prompts(AuthMode::Form));
}

#[test]
fn credentials_from_the_command_line() {
    let c = credentials(Some("admin:secret:x"), None, AuthMode::Digest, false);
    assert_eq!((c.username.as_deref(), c.password.as_deref(), c.ask), (Some("admin"), Some("secret:x"), Ask::Nothing));
    let c = credentials(Some("admin:secret"), Some("other".to_string()), AuthMode::Digest, false);
    assert_eq!(c.password.as_deref(), Some("other"));
    let c = credentials(Some("admin"), None, AuthMode::Digest, false);
    assert_eq!((c.username.as_deref(), c.password.as_deref(), c.ask), (Some("admin"), None, Ask::Password));
    let c = credentials(Some("admin"), None, AuthMode::Digest, true);
    assert_eq!(c.ask, Ask::Nothing);
    let c = credentials(None, Some("pw".to_string()), AuthMode::Basic, false);
    assert_eq!((c.username.as_deref(), c.password.as_deref(), c.ask), (None, Some("pw"), Ask::Username));
    let c = credentials(None, None, AuthMode::Form, false);
    assert_eq!(c.ask, Ask::UsernameAndPassword);
    let c = credentials(None, Some("pw".to_string()), AuthMode::Okta, false);
    assert_eq!((c.password.as_deref(), c.ask), (Some("pw"), Ask::Nothing));
    let c = credentials(None, Some("pw".to_string()), AuthMode::NoAuth, false);
    assert_eq!((c.password.as_deref(), c.ask), (None, Ask::Nothing));
}

#[test]
fn modes_from_arguments_and_servers() {
    assert_eq!(mode_from_arg("cont3xt"), AppMode::Cont3xt);
    assert_eq!(mode_from_arg("anything"), AppMode::Viewer);
    assert_eq!(mode_from_server("wiseService"), AppMode::Wise);
    assert_eq!(mode_from_server("parliament"), AppMode::Parliament);
}

#[test]
fn tags_are_trimmed_and_empty_ones_dropped() {
    assert_eq!(parse_tags(" a , b,,\u{3000}c\u{a0}, "), vec!["a", "b", "c"]);
    assert!(parse_tags("").is_empty());
}

#[test]
fn piped_values_and_their_first_line() {
    assert_eq!(pipe_command("|pass show x"), Some("pass show x".to_string()));
    assert_eq!(pipe_command("plain"), None);
    assert_eq!(pipe_command(""), None);
    assert_eq!(first_line("secret\r\nrest\n"), "secret");
    assert_eq!(first_line("only"), "only");
    assert_eq!(first_line(""), "");
}

#[test]
fn save_json_needs_cont3xt_and_a_search() {
    assert!(save_json_check(AppMode::Cont3xt, "1.2.3.4").is_ok());
    assert_eq!(save_json_check(AppMode::Viewer, "x").err().unwrap(),
        "Error: --cont3xt-save-json requires Cont3xt mode (use --app cont3xt or connect to a Cont3xt server)");
    assert_eq!(save_json_check(AppMode::Cont3xt, "").err().unwrap(),
        "Error: --cont3xt-save-json requires a search expression (use --search or --cont3xt-search)");
}

#[test]
fn nested_stats_values() {
    let item = JsonValue::Object(vec![
        ("a".to_string(), JsonValue::Object(vec![("b".to_string(), JsonValue::Number("2".to_string()))])),
        ("a.b".to_string(), JsonValue::Number("1".to_string())),
        ("c".to_string(), JsonValue::Bool(true)),
    ]);
    assert!(matches!(get_nested_value(&item, "a.b"), Some(JsonValue::Number(n)) if n == "1"));
    assert!(matches!(get_nested_value(&item, "c"), Some(JsonValue::Bool(true))));
    assert!(get_nested_value(&item, "d").is_none());
    assert!(get_nested_value(&item, "c.x").is_none());
}

#[test]
fn popups_and_inputs() {
    let area = Area { x: 2, y: 1, width: 80, height: 24 };
    assert_eq!(center_popup(70, 30, area), Area { x: 7, y: 1, width: 70, height: 24 });
    assert_eq!(text_input_view(5, true, Area { x: 0, y: 0, width: 10, height: 3 }), (0, Some((6, 1))));
    assert_eq!(text_input_view(12, true, Area { x: 0, y: 0, width: 10, height: 3 }), (4, Some((9, 1))));
    assert_eq!(text_input_view(12, false, Area { x: 0, y: 0, width: 10, height: 3 }), (0, None));
}

#[test]
fn session_cells_and_titles() {
    let s = |x: &str| JsonValue::Str(x.to_string());
    let arr = JsonValue::Array(vec![s("a"), JsonValue::Number("1".to_string()), s("b")]);
    assert_eq!(session_cell_text(&arr, "tags", 2), "a,b");
    assert_eq!(session_cell_text(&JsonValue::Number("6".to_string()), "ipProtocol", 0), "TCP");
    assert_eq!(session_cell_text(&JsonValue::Number("6".to_string()), "ipProtocol", 1), "6");
    assert_eq!(session_cell_text(&JsonValue::Null, "x", 1), "-");
    assert_eq!(session_cell_text(&JsonValue::Bool(true), "x", 1), "true");
    assert_eq!(detail_value_text(&arr), "a, 1, b");
    assert_eq!(sessions_title(Some("mine"), 0, 50, 120), " Sessions [view: mine] [1-50 of 120] ◄ ► ");
    assert_eq!(sessions_title(None, 100, 50, 120), " Sessions [101-120 of 120] ◄ ► ");
    assert_eq!(sessions_title(None, 0, 0, 0), " Sessions [0] ");
    let map = vec![("ip.src".to_string(), "Src IP".to_string())];
    assert_eq!(friendly_name(&map, &"ip.src".to_string()), "Src IP");
    assert_eq!(friendly_name(&map, &"port".to_string()), "port");
    let data = JsonValue::Object(vec![
        ("port".to_string(), s("80")),
        ("ip.src".to_string(), s("1.1.1.1")),
        ("bytesCnt".to_string(), s("3")),
        ("asn".to_string(), s("x")),
    ]);
    assert_eq!(detail_fields(&data, &map, ""), vec!["asn", "ip.src", "port"]);
    assert_eq!(detail_fields(&data, &map, "SRC"), vec!["ip.src"]);
    assert_eq!(detail_scroll(2, 5, 10), 2);
    assert_eq!(detail_scroll(20, 5, 10), 11);
    assert_eq!(detail_scroll(7, 5, 10), 5);
    assert_eq!(detail_scroll(7, 5, 0), 5);
}
