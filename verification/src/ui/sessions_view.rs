//! What the sessions table and the session detail show: the text of each cell, the
//! title of the page, the fields of the detail under its filter, and its scrolling.
use vstd::prelude::*;
use crate::app::columns::string_views;
use crate::app::types::{spec_is_hidden_detail_field, is_hidden_detail_field};
use crate::json::{JsonValue, JsonView, json_views};
use crate::seqs::{stable_order, text_before, stable_order_text};
use crate::text::{str_to_string, string_eq, string_eq_str, to_lowercase, contains, spec_to_lowercase, spec_contains};
use crate::ui::format::{ip_protocol_str, spec_protocol_name, number_text, spec_digits};
use crate::ui::json_lines::{append_str, json_to_string, json_text, lemma_join_take_step, spec_join};

verus! {

/// The strings among array items, in order.
pub open spec fn array_strings(a: Seq<JsonView>) -> Seq<Seq<char>>
    decreases a.len(),
{
    if a.len() == 0 {
        seq![]
    } else {
        array_strings(a.drop_last()) + (match a.last() {
            JsonView::Str(s) => seq![s],
            _ => seq![],
        })
    }
}

/// The text of a sessions table cell that is not a date: the protocol's name in a
/// protocol column, a string as it is, a number's text, the strings of an array
/// joined by commas, `-` for null, the compact JSON text of anything else.
pub open spec fn spec_cell_text(val: JsonView, protocol_column: bool) -> Seq<char> {
    if protocol_column {
        match val {
            JsonView::Number(_) => spec_protocol_name(match val.as_u64() { Some(n) => n, None => 0 }),
            _ => "-"@,
        }
    } else {
        match val {
            JsonView::Str(s) => s,
            JsonView::Number(t) => t,
            JsonView::Array(a) => spec_join(array_strings(a), seq![',']),
            JsonView::Null => "-"@,
            _ => json_text(val),
        }
    }
}

fn join_strings_of(a: &Vec<JsonValue>, sep: char) -> (r: String)
    ensures
        r@ == spec_join(array_strings(json_views(a@)), seq![sep]),
{
    let ghost av = json_views(a@);
    let mut out = String::new();
    let mut count: usize = 0;
    let mut i: usize = 0;
    while i < a.len()
        invariant
            i <= a.len(),
            av == json_views(a@),
            count == array_strings(av.take(i as int)).len(),
            count <= i,
            out@ == spec_join(array_strings(av.take(i as int)), seq![sep]),
        decreases a.len() - i,
    {
        assert(av.take(i + 1).drop_last() =~= av.take(i as int));
        assert(av.take(i + 1).last() == a@[i as int]@);
        match &a[i] {
            JsonValue::Str(s) => {
                if count > 0 {
                    crate::text::push_char(&mut out, sep);
                }
                append_str(&mut out, s.as_str());
                count = count + 1;
                let ghost prev = array_strings(av.take(i as int));
                assert(array_strings(av.take(i + 1)) =~= prev.push(s@));
                assert(array_strings(av.take(i + 1)).drop_last() =~= prev);
            },
            _ => {
                assert(array_strings(av.take(i + 1)) =~= array_strings(av.take(i as int)));
            },
        }
        i = i + 1;
    }
    assert(av.take(a.len() as int) =~= av);
    out
}

/// The text of a sessions table cell that is not a date; the protocol column is an
/// `ipProtocol` field in the first column.
pub fn session_cell_text(val: &JsonValue, field: &str, col_idx: usize) -> (r: String)
    ensures
        r@ == spec_cell_text(val@, field@ == "ipProtocol"@ && col_idx == 0),
{
    let protocol = col_idx == 0 && string_eq_str(&str_to_string(field), "ipProtocol");
    if protocol {
        return ip_protocol_str(val);
    }
    match val {
        JsonValue::Str(s) => s.clone(),
        JsonValue::Number(t) => t.clone(),
        JsonValue::Array(a) => {
            let r = join_strings_of(a, ',');
            assert(val@.as_array() == Some(json_views(a@)));
            r
        },
        JsonValue::Null => str_to_string("-"),
        _ => json_to_string(val),
    }
}

/// The title of the sessions table: the active view, then the range shown and the
/// number of matching sessions, or `[0]` when none matches.
pub open spec fn spec_sessions_title(view: Option<Seq<char>>, page_start: u64, count: nat, filtered: u64) -> Seq<char> {
    let view_label = match view { Some(v) => " [view: "@ + v + "]"@, None => seq![] };
    let end = if page_start + count < filtered { page_start + count } else { filtered as int };
    if filtered > 0 {
        " Sessions"@ + view_label + " ["@ + spec_digits((page_start + 1) as nat) + "-"@ + spec_digits(end as nat)
            + " of "@ + spec_digits(filtered as nat) + "] ◄ ► "@
    } else {
        " Sessions"@ + view_label + " [0] "@
    }
}

pub fn sessions_title(view: Option<&str>, page_start: u64, count: usize, filtered: u64) -> (r: String)
    requires
        page_start < u64::MAX,
    ensures
        r@ == spec_sessions_title(match view { Some(v) => Some(v@), None => None }, page_start, count as nat, filtered),
{
    let mut t = str_to_string(" Sessions");
    match view {
        Some(v) => {
            append_str(&mut t, " [view: ");
            append_str(&mut t, v);
            append_str(&mut t, "]");
        },
        None => {},
    }
    if filtered > 0 {
        let end: u64 = if (page_start as u128) + (count as u128) < filtered as u128 { page_start + count as u64 } else { filtered };
        append_str(&mut t, " [");
        let a = number_text(page_start + 1);
        append_str(&mut t, a.as_str());
        append_str(&mut t, "-");
        let b = number_text(end);
        append_str(&mut t, b.as_str());
        append_str(&mut t, " of ");
        let c = number_text(filtered);
        append_str(&mut t, c.as_str());
        append_str(&mut t, "] ◄ ► ");
    } else {
        append_str(&mut t, " [0] ");
    }
    t
}

/// The text of a session detail value that is not a date: a string as it is, the
/// items of an array (strings as they are, others as JSON) joined by `, `, `-` for
/// null, the compact JSON text of anything else.
pub open spec fn spec_detail_value(val: JsonView) -> Seq<char> {
    match val {
        JsonView::Str(s) => s,
        JsonView::Array(a) => spec_join(a.map_values(|x: JsonView| match x {
            JsonView::Str(s) => s,
            _ => json_text(x),
        }), seq![',', ' ']),
        JsonView::Null => "-"@,
        _ => json_text(val),
    }
}

pub fn detail_value_text(val: &JsonValue) -> (r: String)
    ensures
        r@ == spec_detail_value(val@),
{
    match val {
        JsonValue::Str(s) => s.clone(),
        JsonValue::Array(a) => {
            let ghost items = json_views(a@).map_values(|x: JsonView| match x {
                JsonView::Str(s) => s,
                _ => json_text(x),
            });
            assert(val@ == JsonView::Array(json_views(a@))) by {
                if let JsonView::Array(x) = val@ {
                    assert(x =~= json_views(a@));
                }
            }
            let mut out = String::new();
            let mut i: usize = 0;
            while i < a.len()
                invariant
                    i <= a.len(),
                    items == json_views(a@).map_values(|x: JsonView| match x {
                        JsonView::Str(s) => s,
                        _ => json_text(x),
                    }),
                    out@ == spec_join(items.take(i as int), seq![',', ' ']),
                decreases a.len() - i,
            {
                proof {
                    lemma_join_take_step(items, seq![',', ' '], i as int);
                }
                if i > 0 {
                    append_str(&mut out, ", ");
                }
                proof {
                    reveal_strlit(", ");
                    assert(", "@ =~= seq![',', ' ']);
                }
                let ghost before = out@;
                assert(items.take(i + 1).last() == items[i as int]);
                assert(json_views(a@)[i as int] == a@[i as int]@);
                match &a[i] {
                    JsonValue::Str(s) => {
                        assert(items[i as int] == s@);
                        append_str(&mut out, s.as_str());
                    },
                    other => {
                        assert(items[i as int] == json_text(other@));
                        let t = json_to_string(other);
                        append_str(&mut out, t.as_str());
                    },
                }
                assert(out@ =~= spec_join(items.take(i + 1), seq![',', ' ']));
                i = i + 1;
            }
            assert(items.take(a.len() as int) =~= items);
            out
        },
        JsonValue::Null => str_to_string("-"),
        _ => json_to_string(val),
    }
}

/// Whether a map entry is the one of field `key`.
pub open spec fn entry_for(key: Seq<char>) -> spec_fn((Seq<char>, Seq<char>)) -> bool {
    |p: (Seq<char>, Seq<char>)| p.0 == key
}

/// The friendly name of a field: that of its first entry in the map, else the field.
pub fn friendly_name(map: &Vec<(String, String)>, key: &String) -> (r: String)
    ensures
        r@ == (match crate::seqs::first_match(crate::app::viewer::pair_views(map@), entry_for(key@)) {
            Some(p) => p.1,
            None => key@,
        }),
{
    let ghost mv = crate::app::viewer::pair_views(map@);
    let ghost pred = entry_for(key@);
    let mut i: usize = 0;
    while i < map.len() && !string_eq(&map[i].0, key)
        invariant
            i <= map.len(),
            mv == crate::app::viewer::pair_views(map@),
            pred == entry_for(key@),
            forall|k: int| 0 <= k < i ==> !pred(#[trigger] mv[k]),
        decreases map.len() - i,
    {
        i = i + 1;
    }
    if i < map.len() {
        proof {
            crate::seqs::lemma_first_match_at(mv, pred, i as int);
        }
        map[i].1.clone()
    } else {
        proof {
            crate::seqs::lemma_first_match_none(mv, pred);
        }
        key.clone()
    }
}

/// Whether the detail shows field `key` under a filter already in lower case: a
/// hidden field never; another always without a filter, else when the field or its
/// friendly name holds the filter.
pub open spec fn detail_shows(map: Seq<(Seq<char>, Seq<char>)>, key: Seq<char>, fl: Seq<char>) -> bool {
    !spec_is_hidden_detail_field(key) && (fl.len() == 0
        || spec_contains(spec_to_lowercase(key), fl)
        || spec_contains(spec_to_lowercase(match crate::seqs::first_match(map, entry_for(key)) {
            Some(p) => p.1,
            None => key,
        }), fl))
}

pub open spec fn shown_keys_in(keys: Seq<Seq<char>>, map: Seq<(Seq<char>, Seq<char>)>, fl: Seq<char>) -> Seq<Seq<char>>
    decreases keys.len(),
{
    if keys.len() == 0 {
        seq![]
    } else {
        shown_keys_in(keys.drop_last(), map, fl) + (if detail_shows(map, keys.last(), fl) { seq![keys.last()] } else { seq![] })
    }
}

/// The fields that the session detail shows, in the order of their names: those
/// of the session object that the filter (in lower case) keeps.
pub open spec fn spec_detail_fields(data: JsonView, map: Seq<(Seq<char>, Seq<char>)>, filter: Seq<char>) -> Seq<Seq<char>> {
    let keys = match data {
        JsonView::Object(m) => m.map_values(|p: (Seq<char>, JsonView)| p.0),
        _ => seq![],
    };
    let shown = shown_keys_in(keys, map, spec_to_lowercase(filter));
    stable_order(shown.len(), text_before(shown, false)).map_values(|i: int| shown[i])
}

pub fn detail_fields(data: &JsonValue, map: &Vec<(String, String)>, filter: &str) -> (r: Vec<String>)
    ensures
        string_views(r@) == spec_detail_fields(data@, crate::app::viewer::pair_views(map@), filter@),
{
    let fl = to_lowercase(filter);
    let ghost mv = crate::app::viewer::pair_views(map@);
    let mut shown: Vec<String> = Vec::new();
    let empty: Vec<(String, JsonValue)> = Vec::new();
    let members: &Vec<(String, JsonValue)> = match data {
        JsonValue::Object(o) => o,
        _ => &empty,
    };
    let ghost kv = members@.map_values(|m: (String, JsonValue)| m.0@);
    assert(kv == (match data@ {
        JsonView::Object(m) => m.map_values(|p: (Seq<char>, JsonView)| p.0),
        _ => seq![],
    })) by {
        if let JsonView::Object(x) = data@ {
            assert(x.map_values(|p: (Seq<char>, JsonView)| p.0) =~= kv);
        } else {
            assert(kv =~= seq![]);
        }
    }
    let mut i: usize = 0;
    while i < members.len()
        invariant
            i <= members.len(),
            kv == members@.map_values(|m: (String, JsonValue)| m.0@),
            mv == crate::app::viewer::pair_views(map@),
            string_views(shown@) == shown_keys_in(kv.take(i as int), mv, fl@),
        decreases members.len() - i,
    {
        assert(kv.take(i + 1).drop_last() =~= kv.take(i as int));
        assert(kv.take(i + 1).last() == members@[i as int].0@);
        let key = &members[i].0;
        let keep = if is_hidden_detail_field(key.as_str()) {
            false
        } else if fl.as_str().unicode_len() == 0 {
            true
        } else {
            let kl = to_lowercase(key.as_str());
            if contains(kl.as_str(), fl.as_str()) {
                true
            } else {
                let fr = friendly_name(map, key);
                let frl = to_lowercase(fr.as_str());
                contains(frl.as_str(), fl.as_str())
            }
        };
        if keep {
            let ghost prev = shown@;
            shown.push(key.clone());
            assert(string_views(shown@) =~= string_views(prev).push(key@));
        }
        i = i + 1;
    }
    assert(kv.take(members.len() as int) =~= kv);
    let ghost sv = string_views(shown@);
    let order = stable_order_text(&shown, false);
    proof {
        crate::seqs::lemma_stable_order_permutation(sv.len(), text_before(sv, false));
        assert(shown@.map_values(|k: String| k@) =~= sv);
    }
    let ghost so = stable_order(sv.len(), text_before(sv, false));
    let mut out: Vec<String> = Vec::new();
    let mut j: usize = 0;
    while j < order.len()
        invariant
            j <= order.len(),
            order@.len() == so.len(),
            so.len() == sv.len(),
            sv == string_views(shown@),
            order@.map_values(|x: usize| x as int) == so,
            forall|k: int| 0 <= k < so.len() ==> 0 <= #[trigger] so[k] < sv.len(),
            string_views(out@) == so.take(j as int).map_values(|x: int| sv[x]),
        decreases order.len() - j,
    {
        assert(order@[j as int] as int == so[j as int]);
        let ghost prev = out@;
        let t = shown[order[j]].clone();
        out.push(t);
        assert(string_views(out@) =~= string_views(prev).push(sv[so[j as int]]));
        assert(so.take(j + 1).map_values(|x: int| sv[x]) =~= so.take(j as int).map_values(|x: int| sv[x]).push(sv[so[j as int]]));
        j = j + 1;
    }
    assert(so.take(order.len() as int) =~= so);
    out
}

/// The scroll of the session detail that keeps the selected row among `visible`
/// rows: up to it when above, down to it when below.
pub fn detail_scroll(selected: usize, scroll: u16, visible: usize) -> (r: u16)
    requires
        selected < u16::MAX,
    ensures
        r == (if visible == 0 {
            scroll as int
        } else if selected < scroll {
            selected as int
        } else if selected >= scroll + visible {
            selected - visible + 1
        } else {
            scroll as int
        }),
        visible > 0 ==> r <= selected < r + visible,
{
    if visible > 0 {
        if selected < scroll as usize {
            return selected as u16;
        } else if (selected as u128) >= (scroll as u128) + (visible as u128) {
            return (selected - visible + 1) as u16;
        }
    }
    scroll
}

} // verus!
