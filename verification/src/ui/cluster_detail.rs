//! The text of the Parliament cluster detail popup: the cluster, its stats and its
//! issues, line by line. Numbers printed with decimals and dates in the local time
//! zone come in as texts.
use vstd::prelude::*;
use crate::text::str_to_string;
use crate::ui::format::{number_text, spec_digits};
use crate::ui::json_lines::append_str;

verus! {

/// The cluster as the popup shows it, with the title of its group.
pub struct ClusterInfo {
    pub group_title: String,
    pub title: String,
    pub description: String,
    pub url: String,
    pub cluster_type: String,
}

/// The stats of a cluster; `bps_text` is the rate already printed in bits per second.
pub struct ClusterStatsInfo {
    pub status: String,
    pub es_version: String,
    pub bps_text: String,
    pub drops_per_sec: u64,
    pub monitoring: u64,
    pub arkime_nodes: u64,
    pub data_nodes: u64,
    pub total_nodes: u64,
    pub health_error: String,
    pub stats_error: String,
}

/// An issue; `first` and `last` are the dates already printed.
pub struct IssueInfo {
    pub severity: String,
    pub title: String,
    pub message: String,
    pub node: String,
    pub first: String,
    pub last: String,
}

pub struct ClusterDetail {
    pub title: String,
    pub lines: Vec<String>,
}

pub open spec fn opt_line(label: Seq<char>, v: Seq<char>) -> Seq<Seq<char>> {
    if v.len() == 0 { seq![] } else { seq![label + v] }
}

pub open spec fn spec_cluster_lines(c: ClusterInfo) -> Seq<Seq<char>> {
    seq!["Group: "@ + c.group_title@, "Cluster: "@ + c.title@] + opt_line("Description: "@, c.description@)
        + opt_line("URL: "@, c.url@) + opt_line("Type: "@, c.cluster_type@) + seq![""@]
}

pub open spec fn spec_stats_lines(s: ClusterStatsInfo) -> Seq<Seq<char>> {
    seq!["── Stats ──"@, "  Health: "@ + s.status@] + opt_line("  ES Version: "@, s.es_version@) + seq![
        "  Bytes/sec: "@ + s.bps_text@,
        "  Drops/sec: "@ + spec_digits(s.drops_per_sec as nat),
        "  Monitoring: "@ + spec_digits(s.monitoring as nat) + " sessions"@,
        "  Arkime Nodes: "@ + spec_digits(s.arkime_nodes as nat),
        "  ES Nodes: "@ + spec_digits(s.data_nodes as nat) + " data / "@ + spec_digits(s.total_nodes as nat) + " total"@,
    ] + opt_line("  Health Error: "@, s.health_error@) + opt_line("  Stats Error: "@, s.stats_error@)
}

pub open spec fn spec_issue_lines(i: IssueInfo) -> Seq<Seq<char>> {
    seq!["  "@ + i.severity@ + " "@ + i.title@ + ": "@ + i.message@] + opt_line("    Node: "@, i.node@) + seq![
        "    First: "@ + i.first@ + "  Last: "@ + i.last@,
    ]
}

pub open spec fn spec_issues_lines(issues: Seq<IssueInfo>) -> Seq<Seq<char>>
    decreases issues.len(),
{
    if issues.len() == 0 {
        seq![]
    } else {
        spec_issues_lines(issues.drop_last()) + spec_issue_lines(issues.last())
    }
}

/// The lines of the popup: the cluster, a blank line, its stats when there are any, a
/// blank line, then its issues (or that it has none).
pub open spec fn spec_cluster_detail_lines(c: ClusterInfo, stats: Option<ClusterStatsInfo>, issues: Option<Seq<IssueInfo>>) -> Seq<Seq<char>> {
    spec_cluster_lines(c) + (match stats {
        Some(s) => spec_stats_lines(s),
        None => seq![],
    }) + seq![""@] + match issues {
        Some(v) => seq!["── Issues ("@ + spec_digits(v.len()) + ") ──"@] + spec_issues_lines(v),
        None => seq!["── No Issues ──"@],
    }
}

pub open spec fn spec_cluster_detail_title(c: ClusterInfo) -> Seq<char> {
    " "@ + c.group_title@ + " - "@ + c.title@ + " (Esc to close) "@
}

fn labeled(label: &str, v: &str) -> (s: String)
    ensures
        s@ == label@ + v@,
{
    let mut s = str_to_string(label);
    append_str(&mut s, v);
    s
}

fn push_opt(lines: &mut Vec<String>, label: &str, v: &String)
    ensures
        final(lines)@.map_values(|x: String| x@) == old(lines)@.map_values(|x: String| x@) + opt_line(label@, v@),
{
    let ghost before = lines@.map_values(|x: String| x@);
    if v.as_str().is_empty() {
        assert(lines@.map_values(|x: String| x@) =~= before + opt_line(label@, v@));
    } else {
        lines.push(labeled(label, v.as_str()));
        assert(lines@.map_values(|x: String| x@) =~= before + opt_line(label@, v@));
    }
}

fn push_line(lines: &mut Vec<String>, s: String)
    ensures
        final(lines)@.map_values(|x: String| x@) == old(lines)@.map_values(|x: String| x@).push(s@),
{
    let ghost before = lines@.map_values(|x: String| x@);
    lines.push(s);
    assert(lines@.map_values(|x: String| x@) =~= before.push(s@));
}

pub open spec fn lines_view(v: Seq<String>) -> Seq<Seq<char>> {
    v.map_values(|x: String| x@)
}

fn push_cluster(lines: &mut Vec<String>, c: &ClusterInfo)
    ensures
        lines_view(final(lines)@) == lines_view(old(lines)@) + spec_cluster_lines(*c),
{
    let ghost start = lines_view(lines@);
    push_line(lines, labeled("Group: ", c.group_title.as_str()));
    push_line(lines, labeled("Cluster: ", c.title.as_str()));
    push_opt(lines, "Description: ", &c.description);
    push_opt(lines, "URL: ", &c.url);
    push_opt(lines, "Type: ", &c.cluster_type);
    push_line(lines, str_to_string(""));
    assert(lines_view(lines@) =~= start + spec_cluster_lines(*c));
}

fn push_stats(lines: &mut Vec<String>, s: &ClusterStatsInfo)
    ensures
        lines_view(final(lines)@) == lines_view(old(lines)@) + spec_stats_lines(*s),
{
    let ghost start = lines_view(lines@);
    push_line(lines, str_to_string("── Stats ──"));
    push_line(lines, labeled("  Health: ", s.status.as_str()));
    push_opt(lines, "  ES Version: ", &s.es_version);
    let ghost mid = lines_view(lines@);
    push_line(lines, labeled("  Bytes/sec: ", s.bps_text.as_str()));
    let d = number_text(s.drops_per_sec);
    push_line(lines, labeled("  Drops/sec: ", d.as_str()));
    let m = number_text(s.monitoring);
    let mut ml = labeled("  Monitoring: ", m.as_str());
    append_str(&mut ml, " sessions");
    push_line(lines, ml);
    let a = number_text(s.arkime_nodes);
    push_line(lines, labeled("  Arkime Nodes: ", a.as_str()));
    let dn = number_text(s.data_nodes);
    let tn = number_text(s.total_nodes);
    let mut el = labeled("  ES Nodes: ", dn.as_str());
    append_str(&mut el, " data / ");
    append_str(&mut el, tn.as_str());
    append_str(&mut el, " total");
    push_line(lines, el);
    let ghost mid2 = lines_view(lines@);
    push_opt(lines, "  Health Error: ", &s.health_error);
    push_opt(lines, "  Stats Error: ", &s.stats_error);
    assert(lines_view(lines@) =~= start + spec_stats_lines(*s));
}

fn push_issue(lines: &mut Vec<String>, it: &IssueInfo)
    ensures
        lines_view(final(lines)@) == lines_view(old(lines)@) + spec_issue_lines(*it),
{
    let ghost start = lines_view(lines@);
    let mut l = labeled("  ", it.severity.as_str());
    append_str(&mut l, " ");
    append_str(&mut l, it.title.as_str());
    append_str(&mut l, ": ");
    append_str(&mut l, it.message.as_str());
    push_line(lines, l);
    push_opt(lines, "    Node: ", &it.node);
    let mut fl = labeled("    First: ", it.first.as_str());
    append_str(&mut fl, "  Last: ");
    append_str(&mut fl, it.last.as_str());
    push_line(lines, fl);
    assert(lines_view(lines@) =~= start + spec_issue_lines(*it));
}

/// The title and lines of the cluster detail popup.
pub fn cluster_detail_lines(c: &ClusterInfo, stats: &Option<ClusterStatsInfo>, issues: &Option<Vec<IssueInfo>>) -> (r: ClusterDetail)
    ensures
        r.title@ == spec_cluster_detail_title(*c),
        lines_view(r.lines@) == spec_cluster_detail_lines(*c, *stats, match issues {
            Some(v) => Some(v@),
            None => None,
        }),
{
    let mut lines: Vec<String> = Vec::new();
    push_cluster(&mut lines, c);
    let ghost after_cluster = lines_view(lines@);
    match stats {
        Some(s) => {
            push_stats(&mut lines, s);
        },
        None => {},
    }
    let ghost st: Seq<Seq<char>> = match stats {
        Some(s) => spec_stats_lines(*s),
        None => seq![],
    };
    assert(lines_view(lines@) =~= Seq::<Seq<char>>::empty() + spec_cluster_lines(*c) + st);
    push_line(&mut lines, str_to_string(""));
    let ghost before_issues = lines_view(lines@);
    match issues {
        Some(v) => {
            let n = number_text(v.len() as u64);
            let mut h = labeled("── Issues (", n.as_str());
            append_str(&mut h, ") ──");
            push_line(&mut lines, h);
            let ghost head = lines_view(lines@);
            let mut i: usize = 0;
            while i < v.len()
                invariant
                    i <= v@.len(),
                    lines_view(lines@) == head + spec_issues_lines(v@.take(i as int)),
                decreases v.len() - i,
            {
                assert(v@.take(i + 1).drop_last() =~= v@.take(i as int));
                assert(v@.take(i + 1).last() == v@[i as int]);
                push_issue(&mut lines, &v[i]);
                assert(lines_view(lines@) =~= head + spec_issues_lines(v@.take(i + 1)));
                i = i + 1;
            }
            assert(v@.take(v@.len() as int) =~= v@);
            assert(lines_view(lines@) =~= before_issues + (seq![h@] + spec_issues_lines(v@)));
        },
        None => {
            push_line(&mut lines, str_to_string("── No Issues ──"));
        },
    }
    let mut title = labeled(" ", c.group_title.as_str());
    append_str(&mut title, " - ");
    append_str(&mut title, c.title.as_str());
    append_str(&mut title, " (Esc to close) ");
    ClusterDetail { title, lines }
}

} // verus!
