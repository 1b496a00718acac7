//! The layout of the DB Shards grid: the width of the index column, the width of
//! each node column, how many node columns fit, and the badge of each shard.
use vstd::prelude::*;
use crate::json::{JsonValue, JsonView};
use crate::app::viewer_data::str_at;
use crate::text::{chars_of, str_to_string, string_eq_str};
use crate::ui::format::{number_text, spec_digits};

verus! {

/// The number of bytes of a character in UTF-8.
pub open spec fn utf8_width(c: char) -> nat {
    if (c as u32) < 0x80 {
        1
    } else if (c as u32) < 0x800 {
        2
    } else if (c as u32) < 0x10000 {
        3
    } else {
        4
    }
}

/// The number of bytes of a text in UTF-8 (`str::len`).
pub open spec fn utf8_len(s: Seq<char>) -> nat
    decreases s.len(),
{
    if s.len() == 0 {
        0
    } else {
        utf8_len(s.drop_last()) + utf8_width(s.last())
    }
}

/// The byte length of a name as a 16-bit number, as the grid takes it.
pub open spec fn name_width(s: Seq<char>) -> u16 {
    (utf8_len(s) % 0x10000) as u16
}

pub open spec fn sat_add(a: u16, b: u16) -> u16 {
    if a + b > u16::MAX {
        u16::MAX
    } else {
        (a + b) as u16
    }
}

pub open spec fn max16(a: u16, b: u16) -> u16 {
    if a >= b {
        a
    } else {
        b
    }
}

/// The widest name, or none.
pub open spec fn widest(names: Seq<Seq<char>>) -> Option<u16>
    decreases names.len(),
{
    if names.len() == 0 {
        None
    } else {
        match widest(names.drop_last()) {
            Some(w) => Some(max16(w, name_width(names.last()))),
            None => Some(name_width(names.last())),
        }
    }
}

/// The index column: the widest index name (5 when there is none) plus one, at least 8.
pub open spec fn index_col_width(indices: Seq<Seq<char>>) -> u16 {
    max16(sat_add(match widest(indices) { Some(w) => w, None => 5 }, 1), 8)
}

/// A node column: its name plus one, at least 6.
pub open spec fn node_col_width(name: Seq<char>) -> u16 {
    max16(sat_add(name_width(name), 1), 6)
}

/// How many node columns from `j` on fit in `avail` after `used`; `None` where the
/// running width would leave 16 bits.
pub open spec fn fit_count(widths: Seq<u16>, j: int, avail: u16, used: u16) -> Option<nat>
    decreases widths.len() - j,
{
    if j < 0 || j >= widths.len() {
        Some(0)
    } else if used + widths[j] > u16::MAX {
        None
    } else if used + widths[j] > avail {
        Some(0)
    } else {
        match fit_count(widths, j + 1, avail, (used + widths[j]) as u16) {
            Some(n) => Some(n + 1),
            None => None,
        }
    }
}

/// The layout of the shards grid.
pub struct ShardsLayout {
    pub index_col_width: u16,
    pub node_widths: Vec<u16>,
    /// the first node column shown
    pub hscroll: usize,
    /// how many node columns are shown
    pub visible_nodes: usize,
    /// how many index rows are shown
    pub visible_rows: usize,
    /// the first index row shown
    pub scroll_top: usize,
}

/// The width left for node columns once the index column and the borders are placed.
pub open spec fn available_width(area_width: u16, icw: u16) -> u16 {
    if area_width >= icw + 3 {
        (area_width - icw - 3) as u16
    } else {
        0
    }
}

fn utf8_len_mod_of(s: &String) -> (r: usize)
    ensures
        r == utf8_len(s@) % 0x10000,
{
    let cs = chars_of(s.as_str());
    let mut n: usize = 0;
    let mut i: usize = 0;
    while i < cs.len()
        invariant
            i <= cs.len(),
            cs@ == s@,
            n == utf8_len(s@.take(i as int)) % 0x10000,
        decreases cs.len() - i,
    {
        assert(s@.take(i + 1).drop_last() =~= s@.take(i as int));
        let c = cs[i] as u32;
        let w: usize = if c < 0x80 { 1 } else if c < 0x800 { 2 } else if c < 0x10000 { 3 } else { 4 };
        n = (n + w) % 0x10000;
        i = i + 1;
    }
    assert(s@.take(cs.len() as int) =~= s@);
    n
}

fn name_width_of(s: &String) -> (r: u16)
    ensures
        r == name_width(s@),
{
    let n = utf8_len_mod_of(s);
    n as u16
}

fn sat_add_of(a: u16, b: u16) -> (r: u16)
    ensures
        r == sat_add(a, b),
{
    if a as u32 + b as u32 > 0xFFFF {
        0xFFFF
    } else {
        a + b
    }
}

/// Lays out the shards grid in an area `area_width` wide and `area_height` high,
/// scrolled to node column `hscroll` with index row `selected_row` selected.
pub fn shards_layout(indices: &Vec<String>, nodes: &Vec<String>, area_width: u16, area_height: u16, hscroll: usize, selected_row: usize) -> (r: ShardsLayout)
    requires
        index_col_width(crate::app::columns::string_views(indices@)) + 3 <= u16::MAX,
        selected_row < usize::MAX,
        fit_count(crate::app::columns::string_views(nodes@).map_values(|n: Seq<char>| node_col_width(n)), hscroll as int,
            available_width(area_width, index_col_width(crate::app::columns::string_views(indices@))), 0) is Some,
    ensures
        ({
            let iv = crate::app::columns::string_views(indices@);
            let widths = crate::app::columns::string_views(nodes@).map_values(|n: Seq<char>| node_col_width(n));
            let icw = index_col_width(iv);
            let fit = fit_count(widths, hscroll as int, available_width(area_width, icw), 0)->0;
            let shown = if fit == 0 && nodes@.len() > 0 { 1 } else { fit };
            let rows = if area_height >= 4 { area_height - 4 } else { 0 };
            &&& r.index_col_width == icw
            &&& r.node_widths@ == widths
            &&& r.visible_nodes == shown
            &&& r.hscroll == (if (hscroll as int) < nodes@.len() - shown { hscroll as int } else if nodes@.len() >= shown { nodes@.len() - shown } else { 0 })
            &&& r.visible_rows == rows
            &&& r.scroll_top == (if selected_row >= rows { selected_row - rows + 1 } else { 0 })
        }),
        r.visible_rows > 0 ==> r.scroll_top <= selected_row < r.scroll_top + r.visible_rows,
{
    let ghost iv = crate::app::columns::string_views(indices@);
    let mut wmax: Option<u16> = None;
    let mut i: usize = 0;
    while i < indices.len()
        invariant
            i <= indices.len(),
            iv == crate::app::columns::string_views(indices@),
            wmax == widest(iv.take(i as int)),
        decreases indices.len() - i,
    {
        assert(iv.take(i + 1).drop_last() =~= iv.take(i as int));
        let w = name_width_of(&indices[i]);
        wmax = match wmax {
            Some(m) => Some(if m >= w { m } else { w }),
            None => Some(w),
        };
        i = i + 1;
    }
    assert(iv.take(indices.len() as int) =~= iv);
    let base: u16 = match wmax {
        Some(w) => w,
        None => 5,
    };
    let icw0 = sat_add_of(base, 1);
    let icw: u16 = if icw0 >= 8 { icw0 } else { 8 };
    let ghost nv = crate::app::columns::string_views(nodes@);
    let ghost wv = nv.map_values(|n: Seq<char>| node_col_width(n));
    let mut widths: Vec<u16> = Vec::new();
    let mut k: usize = 0;
    while k < nodes.len()
        invariant
            k <= nodes.len(),
            nv == crate::app::columns::string_views(nodes@),
            wv == nv.map_values(|n: Seq<char>| node_col_width(n)),
            widths@ == wv.take(k as int),
        decreases nodes.len() - k,
    {
        let w0 = sat_add_of(name_width_of(&nodes[k]), 1);
        let w: u16 = if w0 >= 6 { w0 } else { 6 };
        widths.push(w);
        assert(widths@ =~= wv.take(k + 1));
        k = k + 1;
    }
    assert(wv.take(nodes.len() as int) =~= wv);
    let avail: u16 = if area_width >= icw + 3 { area_width - icw - 3 } else { 0 };
    let mut used: u16 = 0;
    let mut count: usize = 0;
    let mut j: usize = hscroll;
    let ghost total = fit_count(wv, hscroll as int, avail, 0)->0;
    while j < widths.len() && used as u32 + widths[j] as u32 <= avail as u32
        invariant
            widths@ == wv,
            hscroll <= j,
            count == j - hscroll,
            fit_count(wv, j as int, avail, used) is Some,
            total == count + fit_count(wv, j as int, avail, used)->0,
        decreases widths.len() - j,
    {
        used = used + widths[j];
        count = count + 1;
        j = j + 1;
    }
    let shown: usize = if count == 0 && nodes.len() > 0 { 1 } else { count };
    let limit: usize = if nodes.len() >= shown { nodes.len() - shown } else { 0 };
    let hs: usize = if hscroll < limit { hscroll } else { limit };
    let rows: usize = if area_height >= 4 { (area_height - 4) as usize } else { 0 };
    let top: usize = if selected_row >= rows { selected_row - rows + 1 } else { 0 };
    ShardsLayout { index_col_width: icw, node_widths: widths, hscroll: hs, visible_nodes: shown, visible_rows: rows, scroll_top: top }
}

/// How a shard's badge is drawn.
#[derive(Clone, Copy, PartialEq, Eq, Structural, Debug)]
pub enum ShardBadge {
    /// not started
    Down,
    Primary,
    Replica,
}

/// The text of a shard's badge: its number, its text, or `?`.
pub open spec fn badge_text(shard: JsonView) -> Seq<char> {
    match shard.get("shard"@) {
        Some(x) => match x.as_u64() {
            Some(n) => spec_digits(n as nat),
            None => match x.as_str() {
                Some(t) => t,
                None => "?"@,
            },
        },
        None => "?"@,
    }
}

/// The kind of a shard's badge: down unless `STARTED`, else primary for `p`.
pub open spec fn badge_kind(shard: JsonView) -> ShardBadge {
    let state = match str_at(shard, "state"@) { Some(s) => s, None => seq![] };
    let prirep = match str_at(shard, "prirep"@) { Some(s) => s, None => seq![] };
    if state != "STARTED"@ {
        ShardBadge::Down
    } else if prirep == "p"@ {
        ShardBadge::Primary
    } else {
        ShardBadge::Replica
    }
}

/// The badge of a shard in the grid.
pub fn shard_badge(shard: &JsonValue) -> (r: (String, ShardBadge))
    ensures
        r.0@ == badge_text(shard@),
        r.1 == badge_kind(shard@),
{
    proof {
        reveal_strlit("shard");
        reveal_strlit("state");
        reveal_strlit("prirep");
        reveal_strlit("STARTED");
        reveal_strlit("p");
        reveal_strlit("?");
    }
    let text = match shard.get("shard") {
        Some(x) => match x.as_u64() {
            Some(n) => number_text(n),
            None => match x.as_str() {
                Some(t) => str_to_string(t),
                None => str_to_string("?"),
            },
        },
        None => str_to_string("?"),
    };
    let state = match shard.get("state") {
        Some(x) => match x.as_str() {
            Some(t) => str_to_string(t),
            None => String::new(),
        },
        None => String::new(),
    };
    let prirep = match shard.get("prirep") {
        Some(x) => match x.as_str() {
            Some(t) => str_to_string(t),
            None => String::new(),
        },
        None => String::new(),
    };
    let kind = if !string_eq_str(&state, "STARTED") {
        ShardBadge::Down
    } else if string_eq_str(&prirep, "p") {
        ShardBadge::Primary
    } else {
        ShardBadge::Replica
    };
    (text, kind)
}

} // verus!
