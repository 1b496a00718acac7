//! The Cont3xt results pane around its tree: what it says before there are results, its
//! title, which row is selected and how far the tree scrolls, and the detail titles.
use vstd::prelude::*;
use crate::text::str_to_string;
use crate::ui::format::{number_text, spec_digits};
use crate::ui::json_lines::append_str;

verus! {

/// What the pane shows in place of the tree: a prompt before anything was searched,
/// `Searching...` while the search runs without results yet, or that the search found
/// nothing; the tree once there are results.
pub open spec fn spec_results_placeholder(has_results: bool, expression: Seq<char>, searching: bool) -> Option<Seq<char>> {
    if has_results {
        None
    } else if expression.len() == 0 {
        Some("  Enter an indicator to search (IP, domain, hash, email, ...)"@)
    } else if searching {
        Some("  Searching..."@)
    } else {
        Some("  No results for: "@ + expression)
    }
}

pub fn results_placeholder(has_results: bool, expression: &str, searching: bool) -> (r: Option<String>)
    ensures
        match r {
            Some(s) => spec_results_placeholder(has_results, expression@, searching) == Some(s@),
            None => spec_results_placeholder(has_results, expression@, searching) is None,
        },
{
    if has_results {
        None
    } else if expression.is_empty() {
        Some(str_to_string("  Enter an indicator to search (IP, domain, hash, email, ...)"))
    } else if searching {
        Some(str_to_string("  Searching..."))
    } else {
        let mut s = str_to_string("  No results for: ");
        append_str(&mut s, expression);
        Some(s)
    }
}

pub open spec fn spec_results_title(n: nat) -> Seq<char> {
    " Results ("@ + spec_digits(n) + ") "@
}

/// The pane's title with the number of results.
pub fn results_title(n: usize) -> (s: String)
    ensures
        s@ == spec_results_title(n as nat),
{
    let mut s = str_to_string(" Results (");
    let d = number_text(n as u64);
    append_str(&mut s, d.as_str());
    append_str(&mut s, ") ");
    s
}

/// The selected row, kept on the last row, and the first row shown so that it stays
/// in the `visible` rows.
pub open spec fn spec_results_scroll(selected: int, rows: int, visible: int) -> (int, int) {
    let last = if rows >= 1 { rows - 1 } else { 0 };
    let sel = if selected <= last { selected } else { last };
    (sel, if sel >= visible { sel - visible + 1 } else { 0 })
}

pub fn results_scroll(selected: usize, rows: usize, visible: usize) -> (r: (usize, usize))
    ensures
        (r.0 as int, r.1 as int) == spec_results_scroll(selected as int, rows as int, visible as int),
{
    let last: usize = if rows >= 1 { rows - 1 } else { 0 };
    let sel: usize = if selected <= last { selected } else { last };
    (sel, if sel >= visible { sel - visible + 1 } else { 0 })
}

/// The detail title of a result: its integration and indicator, and `[RAW]` in the raw
/// view.
pub open spec fn spec_result_detail_title(name: Seq<char>, indicator: Seq<char>, raw: bool) -> Seq<char> {
    " "@ + name + " — "@ + indicator + " "@ + (if raw { " [RAW] "@ } else { ""@ })
}

pub fn result_detail_title(name: &str, indicator: &str, raw: bool) -> (s: String)
    ensures
        s@ == spec_result_detail_title(name@, indicator@, raw),
{
    let mut s = str_to_string(" ");
    append_str(&mut s, name);
    append_str(&mut s, " — ");
    append_str(&mut s, indicator);
    append_str(&mut s, " ");
    append_str(&mut s, if raw { " [RAW] " } else { "" });
    s
}

/// The detail title of an indicator that has no overview.
pub open spec fn spec_indicator_detail_title(itype: Seq<char>, query: Seq<char>) -> Seq<char> {
    " "@ + itype + " — "@ + query + " "@
}

pub fn indicator_detail_title(itype: &str, query: &str) -> (s: String)
    ensures
        s@ == spec_indicator_detail_title(itype@, query@),
{
    let mut s = str_to_string(" ");
    append_str(&mut s, itype);
    append_str(&mut s, " — ");
    append_str(&mut s, query);
    append_str(&mut s, " ");
    s
}

} // verus!
