use alkeme::json::JsonValue;
use alkeme::ui::json_lines::{
    align_table_columns, defang_string, filter_detail_lines, flatten_json_to_lines, format_json_value,
    format_table_cells, get_by_path, json_to_string, sanitize_control_chars, split_chars, JsonLine,
};

fn s(x: &str) -> JsonValue {
    JsonValue::Str(x.to_string())
}

fn n(x: &str) -> JsonValue {
    JsonValue::Number(x.to_string())
}

fn obj(members: Vec<(&str, JsonValue)>) -> JsonValue {
    JsonValue::Object(members.into_iter().map(|(k, v)| (k.to_string(), v)).collect())
}

fn kv(line: &JsonLine) -> Option<(String, String)> {
    match line {
        JsonLine::KeyValue(k, v) => Some((k.clone(), v.clone())),
        _ => None,
    }
}

#[test]
fn sanitize_blanks_control_characters() {
    assert_eq!(sanitize_control_chars("a\nb\tc\rd"), "a b c d");
    assert_eq!(sanitize_control_chars("x\u{7f}y\u{9f}z"), "x y z");
    assert_eq!(sanitize_control_chars("caf\u{e9} ok"), "caf\u{e9} ok");
    assert_eq!(sanitize_control_chars(""), "");
}

#[test]
fn defang_rewrites_links_and_dots() {
    assert_eq!(defang_string("http://example.com"), "hXXp://example[.]com");
    assert_eq!(defang_string("https://a.b.c/x"), "hXXps://a[.]b[.]c/x");
    assert_eq!(defang_string("no links"), "no links");
    assert_eq!(defang_string("httphttp"), "hXXphXXp");
}

#[test]
fn table_cells_are_padded_and_joined() {
    let cells = vec!["ab".to_string(), "c".to_string(), "def".to_string()];
    assert_eq!(format_table_cells(&cells, &vec![4, 3], " | "), "ab   | c   | def");
    assert_eq!(format_table_cells(&cells, &vec![1, 1, 1], "|"), "ab|c|def");
    assert_eq!(format_table_cells(&vec![], &vec![3], "|"), "");
}

#[test]
fn compact_json_text_escapes_strings() {
    let v = obj(vec![
        ("a", JsonValue::Array(vec![n("1"), JsonValue::Bool(true), JsonValue::Null])),
        ("b", s("q\"\\\n\u{1}")),
    ]);
    assert_eq!(json_to_string(&v), "{\"a\":[1,true,null],\"b\":\"q\\\"\\\\\\n\\u0001\"}");
    assert_eq!(json_to_string(&JsonValue::Array(vec![])), "[]");
    assert_eq!(json_to_string(&obj(vec![])), "{}");
}

#[test]
fn value_text_keeps_strings_as_they_are() {
    assert_eq!(format_json_value(&s("plain")), "plain");
    assert_eq!(format_json_value(&s("two\nlines")), "two lines");
    assert_eq!(format_json_value(&n("3.5")), "3.5");
    assert_eq!(format_json_value(&JsonValue::Bool(false)), "false");
    assert_eq!(format_json_value(&JsonValue::Null), "null");
    assert_eq!(format_json_value(&JsonValue::Array(vec![s("x")])), "[\"x\"]");
}

#[test]
fn split_keeps_empty_pieces() {
    let chars: Vec<char> = "a..b.".chars().collect();
    let parts: Vec<String> = split_chars(&chars, '.').into_iter().map(|p| p.into_iter().collect()).collect();
    assert_eq!(parts, vec!["a", "", "b", ""]);
    let parts: Vec<Vec<char>> = split_chars(&vec![], '.');
    assert_eq!(parts, vec![Vec::<char>::new()]);
}

#[test]
fn path_lookup_prefers_the_whole_key() {
    let data = obj(vec![
        ("source", obj(vec![("ip", s("10.0.0.1"))])),
        ("source.ip", s("flat")),
        ("x", obj(vec![("y", obj(vec![("z", n("7"))]))])),
    ]);
    assert_eq!(format_json_value(get_by_path(&data, "source.ip").unwrap()), "flat");
    assert_eq!(format_json_value(get_by_path(&data, "x.y.z").unwrap()), "7");
    assert!(get_by_path(&data, "x.q").is_none());
    assert!(get_by_path(&data, "x.y.z.w").is_none());
    assert_eq!(json_to_string(get_by_path(&data, "").unwrap()), json_to_string(&data));
}

#[test]
fn flatten_lays_out_nested_values() {
    let data = obj(vec![
        ("_cont3xt", obj(vec![("count", n("2"))])),
        ("list", JsonValue::Array(vec![n("1"), s("two")])),
        ("name", s("abc")),
        ("nested", obj(vec![("k", JsonValue::Bool(true))])),
        ("rows", JsonValue::Array(vec![obj(vec![("a", n("1"))]), s("loose")])),
    ]);
    let lines = flatten_json_to_lines(&data, "", 0);
    assert_eq!(lines.len(), 10);
    assert_eq!(kv(&lines[0]), Some(("list".to_string(), "1, two".to_string())));
    assert_eq!(kv(&lines[1]), Some(("name".to_string(), "abc".to_string())));
    assert!(matches!(&lines[2], JsonLine::Header(h, false) if h == "nested"));
    assert_eq!(kv(&lines[3]), Some(("  k".to_string(), "true".to_string())));
    assert!(matches!(&lines[4], JsonLine::Close(c) if c == "  }"));
    assert!(matches!(&lines[5], JsonLine::Header(h, true) if h == "rows"));
    assert_eq!(kv(&lines[6]), Some(("  a".to_string(), "1".to_string())));
    assert!(matches!(&lines[7], JsonLine::Close(c) if c == "  ---"));
    assert!(matches!(&lines[8], JsonLine::ArrayValue(v) if v == "loose"));
    assert!(matches!(&lines[9], JsonLine::Close(c) if c == "  ]"));
}

#[test]
fn flatten_of_a_plain_value_is_one_line() {
    let lines = flatten_json_to_lines(&n("5"), "val", 1);
    assert_eq!(lines.len(), 1);
    assert_eq!(kv(&lines[0]), Some(("  val".to_string(), "5".to_string())));
    let lines = flatten_json_to_lines(&obj(vec![("k", s("v"))]), "pre", 0);
    assert_eq!(kv(&lines[0]), Some(("pre.k".to_string(), "v".to_string())));
}

#[test]
fn table_widths_fit_the_widest_cell_of_each_column() {
    let mut lines = vec![
        JsonLine::Header("t".to_string(), true),
        JsonLine::TableHeader(vec!["Name".to_string(), "N".to_string()], vec![]),
        JsonLine::TableRow(vec!["a".to_string(), "12345".to_string()], vec![]),
        JsonLine::TableRow(vec!["longer name".to_string(), "1".to_string(), "extra".to_string()], vec![]),
        JsonLine::Close("  ]".to_string()),
        JsonLine::TableRow(vec!["outside".to_string()], vec![9]),
    ];
    align_table_columns(&mut lines);
    for i in 1..4 {
        match &lines[i] {
            JsonLine::TableHeader(_, w) | JsonLine::TableRow(_, w) => assert_eq!(w, &vec![11, 5, 5]),
            _ => panic!("table line expected"),
        }
    }
    assert!(matches!(&lines[5], JsonLine::TableRow(_, w) if w == &vec![9]));
}

#[test]
fn detail_filter_keeps_headers_above_matches() {
    let lines = vec![
        JsonLine::Header("group".to_string(), false),
        JsonLine::KeyValue("Host".to_string(), "Alpha".to_string()),
        JsonLine::KeyValue("port".to_string(), "80".to_string()),
        JsonLine::Close("}".to_string()),
        JsonLine::Header("other".to_string(), false),
        JsonLine::ArrayValue("beta".to_string()),
        JsonLine::TableHeader(vec!["c".to_string()], vec![]),
        JsonLine::TableRow(vec!["GAMMA".to_string(), "x".to_string()], vec![]),
    ];
    let kept = filter_detail_lines(&lines, "ALPHA");
    assert_eq!(kept.len(), 2);
    assert!(matches!(&kept[0], JsonLine::Header(h, _) if h == "group"));
    assert_eq!(kv(&kept[1]), Some(("Host".to_string(), "Alpha".to_string())));
    let kept = filter_detail_lines(&lines, "ma x");
    assert_eq!(kept.len(), 4);
    assert!(matches!(&kept[1], JsonLine::Header(h, _) if h == "other"));
    assert!(matches!(&kept[2], JsonLine::TableHeader(_, _)));
    assert!(matches!(&kept[3], JsonLine::TableRow(_, _)));
    let kept = filter_detail_lines(&lines, "host: al");
    assert_eq!(kept.len(), 2);
    assert_eq!(filter_detail_lines(&lines, "").len(), lines.len());
    assert_eq!(filter_detail_lines(&lines, "nothing here").len(), 0);
}
