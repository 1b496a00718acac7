use alkeme::app::time_range::{CustomUnit, TimeRange};
use alkeme::json::JsonValue;
use alkeme::seqs::{stable_order_number, stable_order_text};
use alkeme::ui::format::{
    braille_from_heights, format_number, ip_protocol_str, is_numeric_field, number_text, parse_hex_color,
    protocol_name, sort_header_label, status_bar_height,
};

#[test]
fn numbers_group_by_thousands() {
    assert_eq!(format_number(0), "0");
    assert_eq!(format_number(999), "999");
    assert_eq!(format_number(1000), "1,000");
    assert_eq!(format_number(1234567), "1,234,567");
    assert_eq!(format_number(u64::MAX), "18,446,744,073,709,551,615");
    assert_eq!(number_text(1234567), "1234567");
    assert_eq!(format_number(1234567).replace(',', ""), number_text(1234567));
}

#[test]
fn protocol_names() {
    assert_eq!(protocol_name(6), "TCP");
    assert_eq!(protocol_name(17), "UDP");
    assert_eq!(protocol_name(200), "200");
    assert_eq!(ip_protocol_str(&JsonValue::Number("1".to_string())), "ICMP");
}

#[test]
fn sorted_column_labels_get_an_arrow() {
    assert_eq!(sort_header_label("Bytes", true, true), "Bytes▼");
    assert_eq!(sort_header_label("Bytes", true, false), "Bytes▲");
    assert_eq!(sort_header_label("Bytes", false, true), "Bytes");
}

#[test]
fn status_bar_grows_with_lines() {
    assert_eq!(status_bar_height(""), 1);
    assert_eq!(status_bar_height("a\nb\nc"), 3);
}

#[test]
fn braille_cells() {
    assert_eq!(braille_from_heights(0, 0), '\u{2800}');
    assert_eq!(braille_from_heights(4, 4), '\u{28ff}');
    assert_eq!(braille_from_heights(1, 0), '\u{2840}');
}

#[test]
fn numeric_stats_fields() {
    assert!(is_numeric_field("docs.count"));
    assert!(!is_numeric_field("nodeName"));
}

#[test]
fn hex_colors() {
    assert_eq!(parse_hex_color("#ff8000"), Some((255, 128, 0)));
    assert_eq!(parse_hex_color("0A0b0C"), Some((10, 11, 12)));
    assert_eq!(parse_hex_color("+f+f+f"), Some((15, 15, 15)));
    assert_eq!(parse_hex_color("#fff"), None);
    assert_eq!(parse_hex_color("gg0000"), None);
}

#[test]
fn time_ranges_parse() {
    assert!(matches!(TimeRange::parse("-1", None), Ok(TimeRange::All)));
    assert!(matches!(TimeRange::parse("24H", None), Ok(TimeRange::Hours24)));
    assert!(matches!(TimeRange::parse("1M", None), Ok(TimeRange::Month1)));
    let t = TimeRange::parse("72h", Some(("72 hours".to_string(), "72".to_string()))).unwrap();
    assert_eq!(t.label(), "72 hours");
    assert_eq!(t.date_value(), "72");
    let e = TimeRange::parse("soon", None).err().unwrap();
    assert_eq!(e, "invalid time range 'soon': use a label (15m, 1h, 24h, 1w, All), -1, or {num}h/w/m (e.g. 72h, 2w, 3m)");
    let (num, unit) = TimeRange::custom_parts("3m").unwrap();
    assert_eq!(num, "3");
    assert!(matches!(unit, CustomUnit::Months));
}

#[test]
fn custom_ranges_are_inserted_once_in_order() {
    let mut list = TimeRange::defaults();
    let custom = TimeRange::Custom { label: "72 hours".to_string(), date_value: "72".to_string() };
    let later: Vec<bool> = vec![false, false, false, false, false, true, true, true, true];
    let idx = TimeRange::insert_sorted(&mut list, custom.duplicate(), &later);
    assert_eq!(idx, 5);
    assert_eq!(list.len(), 10);
    assert!(list[5].same_as(&custom));
    let later: Vec<bool> = vec![false; 10];
    let again = TimeRange::insert_sorted(&mut list, custom.duplicate(), &later);
    assert_eq!(again, 5);
    assert_eq!(list.len(), 10);
}

#[test]
fn stable_sorts_keep_ties_in_order() {
    let keys: Vec<String> = vec!["b", "a", "b", "c"].into_iter().map(String::from).collect();
    assert_eq!(stable_order_text(&keys, false), vec![1, 0, 2, 3]);
    assert_eq!(stable_order_text(&keys, true), vec![3, 0, 2, 1]);
    assert_eq!(stable_order_number(&vec![5, 1, 5, 0], true), vec![0, 2, 1, 3]);
}
