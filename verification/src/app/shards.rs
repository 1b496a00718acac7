//! The DB Shards grid of the Stats tab: the nodes and indices of the shards
//! document, the shards of one index, and a shard with its allocation explanation.
use vstd::prelude::*;
use crate::app::columns::string_views;
use crate::app::viewer::{App, ViewerState, StatsDetail};
use crate::app::viewer_data::{array_at, str_at};
use crate::json::{JsonValue, JsonView, json_views};
use crate::seqs::{stable_order, text_before, stable_order_text, first_index, lemma_first_index_bounds};
use crate::text::{str_to_string, string_eq, string_eq_str, string_lt, seq_lt, to_lowercase, contains,
    spec_to_lowercase, spec_contains, lemma_seq_lt_total, lemma_seq_lt_transitive, lemma_seq_lt_irreflexive};
use crate::json::spec_member;
use crate::ui::format::{number_text, spec_digits};
use crate::ui::json_lines::append_str;

verus! {

pub open spec fn unassigned() -> Seq<char> {
    "Unassigned"@
}

/// The keys equal to `Unassigned`, or different from it, in order.
pub open spec fn keys_where(keys: Seq<Seq<char>>, is_unassigned: bool) -> Seq<Seq<char>>
    decreases keys.len(),
{
    if keys.len() == 0 {
        seq![]
    } else {
        keys_where(keys.drop_last(), is_unassigned) + (if (keys.last() == unassigned()) == is_unassigned { seq![keys.last()] } else { seq![] })
    }
}

/// The node names in the grid's order: `Unassigned` first, then the others sorted.
pub open spec fn spec_node_order(keys: Seq<Seq<char>>) -> Seq<Seq<char>> {
    let rest = keys_where(keys, false);
    keys_where(keys, true) + stable_order(rest.len(), text_before(rest, false)).map_values(|i: int| rest[i])
}

/// The keys of an object; none for other values.
pub open spec fn object_keys(v: Option<JsonView>) -> Seq<Seq<char>> {
    match v {
        Some(JsonView::Object(m)) => m.map_values(|p: (Seq<char>, JsonView)| p.0),
        _ => seq![],
    }
}

/// The names of the items of an array that have a string `name`.
pub open spec fn names_in(a: Seq<JsonView>) -> Seq<Seq<char>>
    decreases a.len(),
{
    if a.len() == 0 {
        seq![]
    } else {
        names_in(a.drop_last()) + (match str_at(a.last(), "name"@) {
            Some(n) => seq![n],
            None => seq![],
        })
    }
}

/// The node names of a shards document, `Unassigned` first.
pub open spec fn shard_nodes(doc: JsonView) -> Seq<Seq<char>> {
    spec_node_order(object_keys(doc.get("nodes"@)))
}

/// The index names of a shards document, in order.
pub open spec fn shard_indices(doc: JsonView) -> Seq<Seq<char>> {
    match array_at(doc, "indices"@) {
        Some(a) => names_in(a),
        None => seq![],
    }
}

/// Orders node names: `Unassigned` first, then the others by their text.
pub fn node_order(keys: &Vec<String>) -> (r: Vec<String>)
    ensures
        string_views(r@) == spec_node_order(string_views(keys@)),
{
    let ghost kv = string_views(keys@);
    proof {
        reveal_strlit("Unassigned");
    }
    let mut first: Vec<String> = Vec::new();
    let mut rest: Vec<String> = Vec::new();
    let mut i: usize = 0;
    while i < keys.len()
        invariant
            i <= keys.len(),
            kv == string_views(keys@),
            string_views(first@) == keys_where(kv.take(i as int), true),
            string_views(rest@) == keys_where(kv.take(i as int), false),
        decreases keys.len() - i,
    {
        assert(kv.take(i + 1).drop_last() =~= kv.take(i as int));
        assert(kv.take(i + 1).last() == keys@[i as int]@);
        let k = keys[i].clone();
        let ghost pf = first@;
        let ghost pr = rest@;
        if string_eq_str(&k, "Unassigned") {
            first.push(k);
            assert(string_views(first@) =~= string_views(pf).push(keys@[i as int]@));
        } else {
            rest.push(k);
            assert(string_views(rest@) =~= string_views(pr).push(keys@[i as int]@));
        }
        assert(string_views(first@) =~= keys_where(kv.take(i + 1), true));
        assert(string_views(rest@) =~= keys_where(kv.take(i + 1), false));
        i = i + 1;
    }
    assert(kv.take(keys.len() as int) =~= kv);
    let ghost rv = string_views(rest@);
    let order = stable_order_text(&rest, false);
    proof {
        crate::seqs::lemma_stable_order_permutation(rv.len(), text_before(rv, false));
        assert(rest@.map_values(|k: String| k@) =~= rv);
    }
    let ghost so = stable_order(rv.len(), text_before(rv, false));
    assert(order@.len() == so.len());
    let ghost start = string_views(first@);
    let mut j: usize = 0;
    while j < order.len()
        invariant
            j <= order.len(),
            order@.len() == so.len(),
            so.len() == rv.len(),
            rv == string_views(rest@),
            order@.map_values(|x: usize| x as int) == so,
            forall|k: int| 0 <= k < so.len() ==> 0 <= #[trigger] so[k] < rv.len(),
            string_views(first@) == start + so.take(j as int).map_values(|x: int| rv[x]),
        decreases order.len() - j,
    {
        assert(order@[j as int] as int == so[j as int]);
        let x = order[j];
        let ghost prev = first@;
        let t = rest[x].clone();
        first.push(t);
        assert(string_views(first@) =~= string_views(prev).push(rv[so[j as int]]));
        assert(so.take(j + 1).map_values(|x: int| rv[x]) =~= so.take(j as int).map_values(|x: int| rv[x]).push(rv[so[j as int]]));
        j = j + 1;
    }
    assert(so.take(order.len() as int) =~= so);
    first
}

fn object_keys_of(v: Option<&JsonValue>) -> (r: Vec<String>)
    ensures
        string_views(r@) == object_keys(match v { Some(x) => Some(x@), None => None }),
{
    let mut out: Vec<String> = Vec::new();
    match v {
        Some(JsonValue::Object(o)) => {
            let ghost x = v->0;
            let ghost kv = o@.map_values(|m: (String, JsonValue)| m.0@);
            assert(object_keys(Some(x@)) == kv) by {
                if let JsonView::Object(mm) = x@ {
                    assert(mm.map_values(|p: (Seq<char>, JsonView)| p.0) =~= kv);
                }
            }
            let mut i: usize = 0;
            while i < o.len()
                invariant
                    i <= o.len(),
                    kv == o@.map_values(|m: (String, JsonValue)| m.0@),
                    string_views(out@) == kv.take(i as int),
                decreases o.len() - i,
            {
                let ghost prev = out@;
                let k = o[i].0.clone();
                out.push(k);
                assert(string_views(out@) =~= string_views(prev).push(kv[i as int]));
                assert(string_views(out@) =~= kv.take(i + 1));
                i = i + 1;
            }
            assert(kv.take(o.len() as int) =~= kv);
        },
        Some(x) => {
            assert(!(x@ is Object));
            assert(string_views(out@) =~= seq![]);
        },
        None => {
            assert(string_views(out@) =~= seq![]);
        },
    }
    out
}

fn names_of(a: &Vec<JsonValue>) -> (r: Vec<String>)
    ensures
        string_views(r@) == names_in(json_views(a@)),
{
    proof {
        reveal_strlit("name");
    }
    let ghost av = json_views(a@);
    let mut out: Vec<String> = Vec::new();
    let mut i: usize = 0;
    while i < a.len()
        invariant
            i <= a.len(),
            av == json_views(a@),
            string_views(out@) == names_in(av.take(i as int)),
        decreases a.len() - i,
    {
        assert(av.take(i + 1).drop_last() =~= av.take(i as int));
        assert(av.take(i + 1).last() == a@[i as int]@);
        let ghost prev = out@;
        match a[i].get("name") {
            Some(n) => match n.as_str() {
                Some(s) => {
                    let t = str_to_string(s);
                    out.push(t);
                    assert(string_views(out@) =~= string_views(prev).push(t@));
                },
                None => {},
            },
            None => {},
        }
        assert(string_views(out@) =~= names_in(av.take(i + 1)));
        i = i + 1;
    }
    assert(av.take(a.len() as int) =~= av);
    out
}

/// The status line after the shards grid was loaded.
pub open spec fn shards_loaded_msg(indices: nat, nodes: nat, show_label: Seq<char>) -> Seq<char> {
    "DB Shards: "@ + spec_digits(indices) + " indices, "@ + spec_digits(nodes) + " nodes ["@ + show_label + "]"@
}

impl App {
    /// Takes in a shards document: its node names (`Unassigned` first, the others
    /// sorted), the names of its indices, the document itself; the first row selected.
    pub fn vr_apply_shards_response(&mut self, doc: &JsonValue)
        ensures
            string_views(final(self).viewer.shards_nodes@) == shard_nodes(doc@),
            string_views(final(self).viewer.shards_indices@) == shard_indices(doc@),
            final(self).viewer.shards_data@ == doc@,
            final(self).status_msg@ == shards_loaded_msg(shard_indices(doc@).len(), shard_nodes(doc@).len(),
                old(self).viewer.shards_show.spec_label()),
            *final(self) == (App {
                viewer: ViewerState {
                    shards_nodes: final(self).viewer.shards_nodes,
                    shards_indices: final(self).viewer.shards_indices,
                    shards_data: final(self).viewer.shards_data,
                    shards_selected_row: 0,
                    shards_loaded: true,
                    ..old(self).viewer
                },
                status_msg: final(self).status_msg,
                ..*old(self)
            }),
    {
        proof {
            reveal_strlit("nodes");
            reveal_strlit("indices");
        }
        let keys = object_keys_of(doc.get("nodes"));
        let nodes = node_order(&keys);
        let indices = match doc.get("indices") {
            Some(i) => match i.as_array() {
                Some(a) => names_of(a),
                None => Vec::new(),
            },
            None => Vec::new(),
        };
        assert(array_at(doc@, "indices"@) is None ==> string_views(indices@) =~= seq![]);
        let mut msg = str_to_string("DB Shards: ");
        let a = number_text(indices.len() as u64);
        append_str(&mut msg, a.as_str());
        append_str(&mut msg, " indices, ");
        let b = number_text(nodes.len() as u64);
        append_str(&mut msg, b.as_str());
        append_str(&mut msg, " nodes [");
        append_str(&mut msg, self.viewer.shards_show.label());
        append_str(&mut msg, "]");
        self.viewer.shards_nodes = nodes;
        self.viewer.shards_indices = indices;
        self.viewer.shards_data = doc.duplicate();
        self.viewer.shards_selected_row = 0;
        self.viewer.shards_loaded = true;
        self.status_msg = msg;
    }
}

/// Whether a member's key is not below `k`.
pub open spec fn key_not_below(k: Seq<char>) -> spec_fn((Seq<char>, JsonView)) -> bool {
    |p: (Seq<char>, JsonView)| !seq_lt(p.0, k)
}

/// Inserts a member into members kept in the order of their keys, as a JSON map
/// does: the member with key `k` takes the new value, or a new member goes before
/// the first key above `k`.
pub open spec fn object_insert(m: Seq<(Seq<char>, JsonView)>, k: Seq<char>, v: JsonView) -> Seq<(Seq<char>, JsonView)> {
    let i = first_index(m, key_not_below(k));
    if i < m.len() && m[i].0 == k {
        m.update(i, (k, v))
    } else {
        m.insert(i, (k, v))
    }
}

pub open spec fn members_view(o: Seq<(String, JsonValue)>) -> Seq<(Seq<char>, JsonView)> {
    o.map_values(|m: (String, JsonValue)| (m.0@, m.1@))
}

/// Inserts a member into members kept in the order of their keys.
fn insert_member(o: &mut Vec<(String, JsonValue)>, k: String, v: JsonValue)
    ensures
        members_view(final(o)@) == object_insert(members_view(old(o)@), k@, v@),
{
    let ghost mv = members_view(o@);
    let ghost p = key_not_below(k@);
    let mut i: usize = 0;
    while i < o.len() && string_lt(&o[i].0, &k)
        invariant
            i <= o.len(),
            mv == members_view(o@),
            p == key_not_below(k@),
            forall|j: int| 0 <= j < i ==> !p(#[trigger] mv[j]),
        decreases o.len() - i,
    {
        i = i + 1;
    }
    proof {
        lemma_first_index_bounds(mv, p);
        if i < o.len() {
            crate::seqs::lemma_first_match_at(mv, p, i as int);
        } else {
            crate::seqs::lemma_first_match_none(mv, p);
        }
    }
    if i < o.len() && string_eq(&o[i].0, &k) {
        o.set(i, (k, v));
    } else {
        o.insert(i, (k, v));
    }
    assert(members_view(o@) =~= object_insert(mv, k@, v@));
}

/// A shard with the node it lives on added as `node`.
pub open spec fn with_node(shard: JsonView, node: Seq<char>) -> JsonView {
    match shard {
        JsonView::Object(m) => JsonView::Object(object_insert(m, "node"@, JsonView::Str(node))),
        _ => shard,
    }
}

/// The shards of an index on one node.
pub open spec fn node_shards(idx: JsonView, node: Seq<char>) -> Seq<JsonView> {
    match idx.get("nodes"@) {
        Some(ns) => match array_at(ns, node) {
            Some(a) => a,
            None => seq![],
        },
        None => seq![],
    }
}

/// The shards of an index, node by node in the grid's order, each with its node.
pub open spec fn all_shards(idx: JsonView, nodes: Seq<Seq<char>>) -> Seq<JsonView>
    decreases nodes.len(),
{
    if nodes.len() == 0 {
        seq![]
    } else {
        all_shards(idx, nodes.drop_last()) + node_shards(idx, nodes.last()).map_values(|s: JsonView| with_node(s, nodes.last()))
    }
}

pub open spec fn index_named(name: Seq<char>) -> spec_fn(JsonView) -> bool {
    |x: JsonView| str_at(x, "name"@) == Some(name)
}

/// The detail of an index: its name and its shards.
pub open spec fn index_detail_doc(name: Seq<char>, shards: Seq<JsonView>) -> JsonView {
    JsonView::Object(seq![("index"@, JsonView::Str(name)), ("shards"@, JsonView::Array(shards))])
}

/// A copy of a JSON value with a member `node` added when it is an object.
fn shard_with_node(shard: &JsonValue, node: &String) -> (r: JsonValue)
    ensures
        r@ == with_node(shard@, node@),
{
    proof {
        reveal_strlit("node");
    }
    match shard.duplicate() {
        JsonValue::Object(mut o) => {
            let ghost before = members_view(o@);
            assert(shard@ == JsonView::Object(before)) by {
                if let JsonView::Object(x) = shard@ {
                    assert(x =~= before);
                }
            }
            insert_member(&mut o, str_to_string("node"), JsonValue::Str(node.clone()));
            let r = JsonValue::Object(o);
            assert(r@ == with_node(shard@, node@)) by {
                if let JsonView::Object(x) = r@ {
                    assert(x =~= members_view(o@));
                }
            }
            r
        },
        other => other,
    }
}

fn index_has_name(item: &JsonValue, name: &String) -> (r: bool)
    ensures
        r == index_named(name@)(item@),
{
    proof {
        reveal_strlit("name");
    }
    match item.get("name") {
        Some(n) => match n.as_str() {
            Some(s) => string_eq_str(name, s),
            None => false,
        },
        None => false,
    }
}

impl App {
    /// Opens the detail of the selected index of the shards grid: its shards, node
    /// by node in the grid's order, each with its node. Nothing happens when no row
    /// is selected or the document has no such index.
    pub fn vr_open_shards_detail(&mut self)
        ensures
            ({
                let rows = string_views(old(self).viewer.shards_indices@);
                let sel = old(self).viewer.shards_selected_row as int;
                let items = match array_at(old(self).viewer.shards_data@, "indices"@) {
                    Some(a) => a,
                    None => seq![],
                };
                if sel >= rows.len() || crate::seqs::first_match(items, index_named(rows[sel])) is None {
                    *final(self) == *old(self)
                } else {
                    let idx = crate::seqs::first_match(items, index_named(rows[sel]))->0;
                    &&& final(self).viewer.shards_detail is Some
                    &&& final(self).viewer.shards_detail->0.data@ == index_detail_doc(rows[sel],
                        all_shards(idx, string_views(old(self).viewer.shards_nodes@)))
                    &&& final(self).viewer.shards_detail->0.scroll == 0
                    &&& final(self).viewer.shards_detail->0.filter@ == Seq::<char>::empty()
                    &&& final(self).viewer.shards_detail->0.filter_cursor == 0
                    &&& *final(self) == (App {
                        viewer: ViewerState { shards_detail: final(self).viewer.shards_detail, ..old(self).viewer },
                        ..*old(self)
                    })
                }
            }),
    {
        proof {
            reveal_strlit("indices");
            reveal_strlit("name");
            reveal_strlit("nodes");
            reveal_strlit("index");
            reveal_strlit("shards");
        }
        if self.viewer.shards_selected_row >= self.viewer.shards_indices.len() {
            return;
        }
        let name = self.viewer.shards_indices[self.viewer.shards_selected_row].clone();
        let empty: Vec<JsonValue> = Vec::new();
        let items: &Vec<JsonValue> = match self.viewer.shards_data.get("indices") {
            Some(x) => match x.as_array() {
                Some(a) => a,
                None => &empty,
            },
            None => &empty,
        };
        let ghost iv = json_views(items@);
        assert(iv == (match array_at(self.viewer.shards_data@, "indices"@) { Some(a) => a, None => seq![] })) by {
            if array_at(self.viewer.shards_data@, "indices"@) is None {
                assert(iv =~= seq![]);
            }
        }
        let ghost pred = index_named(name@);
        let mut k: usize = 0;
        while k < items.len() && !index_has_name(&items[k], &name)
            invariant
                k <= items.len(),
                iv == json_views(items@),
                pred == index_named(name@),
                forall|j: int| 0 <= j < k ==> !pred(#[trigger] iv[j]),
            decreases items.len() - k,
        {
            k = k + 1;
        }
        if k >= items.len() {
            proof {
                crate::seqs::lemma_first_match_none(iv, pred);
            }
            return;
        }
        proof {
            crate::seqs::lemma_first_match_at(iv, pred, k as int);
        }
        let idx = &items[k];
        let ghost nv = string_views(self.viewer.shards_nodes@);
        let mut all: Vec<JsonValue> = Vec::new();
        let mut n: usize = 0;
        while n < self.viewer.shards_nodes.len()
            invariant
                n <= self.viewer.shards_nodes.len(),
                nv == string_views(self.viewer.shards_nodes@),
                json_views(all@) == all_shards(idx@, nv.take(n as int)),
            decreases self.viewer.shards_nodes.len() - n,
        {
            assert(nv.take(n + 1).drop_last() =~= nv.take(n as int));
            assert(nv.take(n + 1).last() == nv[n as int]);
            let node = &self.viewer.shards_nodes[n];
            let empty2: Vec<JsonValue> = Vec::new();
            let shards: &Vec<JsonValue> = match idx.get("nodes") {
                Some(ns) => match ns.get(node.as_str()) {
                    Some(sv) => match sv.as_array() {
                        Some(a) => a,
                        None => &empty2,
                    },
                    None => &empty2,
                },
                None => &empty2,
            };
            let ghost sv = json_views(shards@);
            assert(sv == node_shards(idx@, node@)) by {
                if json_views(shards@).len() == 0 {
                    assert(sv =~= seq![]);
                }
            }
            let ghost base = json_views(all@);
            let mut t: usize = 0;
            while t < shards.len()
                invariant
                    t <= shards.len(),
                    sv == json_views(shards@),
                    json_views(all@) == base + sv.take(t as int).map_values(|s: JsonView| with_node(s, node@)),
                decreases shards.len() - t,
            {
                let ghost prev = all@;
                let e = shard_with_node(&shards[t], node);
                all.push(e);
                assert(json_views(all@) =~= json_views(prev).push(e@));
                assert(sv.take(t + 1).map_values(|s: JsonView| with_node(s, node@)) =~= sv.take(t as int).map_values(|s: JsonView| with_node(s, node@)).push(with_node(sv[t as int], node@)));
                t = t + 1;
            }
            assert(sv.take(shards.len() as int) =~= sv);
            n = n + 1;
        }
        assert(nv.take(self.viewer.shards_nodes.len() as int) =~= nv);
        let ghost allv = json_views(all@);
        let ghost namev = name@;
        let shards_val = JsonValue::Array(all);
        let ghost sval = shards_val@;
        proof {
            if let JsonView::Array(x) = shards_val@ {
                assert(x =~= allv);
            }
        }
        let mut members: Vec<(String, JsonValue)> = Vec::new();
        members.push((str_to_string("index"), JsonValue::Str(name)));
        members.push((str_to_string("shards"), shards_val));
        assert(members_view(members@) =~= seq![("index"@, JsonView::Str(namev)), ("shards"@, sval)]);
        let data = JsonValue::Object(members);
        proof {
            if let JsonView::Object(x) = data@ {
                assert(x =~= members_view(members@));
            }
        }
        self.viewer.shards_detail = Some(StatsDetail { data, scroll: 0, filter: String::new(), filter_cursor: 0 });
    }
}

/// The text of a shard that the filter searches: its string members' values joined
/// by spaces, other members counting as empty texts; nothing for other values.
pub open spec fn shard_text(s: JsonView) -> Seq<char> {
    match s {
        JsonView::Object(m) => crate::ui::json_lines::spec_join(
            m.map_values(|p: (Seq<char>, JsonView)| match p.1 {
                JsonView::Str(x) => x,
                _ => seq![],
            }),
            seq![' '],
        ),
        _ => seq![],
    }
}

/// The shards that a filter (already in lower case) keeps: all for an empty filter.
pub open spec fn shards_matching(shards: Seq<JsonView>, fl: Seq<char>) -> Seq<JsonView>
    decreases shards.len(),
{
    if shards.len() == 0 {
        seq![]
    } else {
        shards_matching(shards.drop_last(), fl) + (if fl.len() == 0 || spec_contains(spec_to_lowercase(shard_text(shards.last())), fl) {
            seq![shards.last()]
        } else {
            seq![]
        })
    }
}

/// The number of a shard as the explain request takes it: the text of a number or a
/// string.
pub open spec fn shard_number(shard: JsonView) -> Option<Seq<char>> {
    match shard.get("shard"@) {
        Some(JsonView::Number(t)) => Some(t),
        Some(JsonView::Str(x)) => Some(x),
        _ => None,
    }
}

/// The shard whose allocation is to be explained: the selected one among the shards
/// of the open index detail that its filter keeps, with the index name (empty when
/// missing), the shard number and whether it is a primary.
pub open spec fn spec_shard_target(detail: Option<(JsonView, u16, Seq<char>)>) -> Option<(Seq<char>, Seq<char>, bool, JsonView)> {
    match detail {
        None => None,
        Some((data, scroll, filter)) => match array_at(data, "shards"@) {
            None => None,
            Some(shards) => {
                let kept = shards_matching(shards, spec_to_lowercase(filter));
                if scroll as int >= kept.len() {
                    None
                } else {
                    let shard = kept[scroll as int];
                    match shard_number(shard) {
                        None => None,
                        Some(num) => Some((
                            match str_at(data, "index"@) { Some(n) => n, None => seq![] },
                            num,
                            str_at(shard, "prirep"@) == Some("p"@),
                            shard,
                        )),
                    }
                }
            },
        },
    }
}

/// A shard to explain, with its index.
pub struct ShardTarget {
    pub index: String,
    pub shard_num: String,
    pub is_primary: bool,
    pub shard: JsonValue,
}

fn shard_text_of(s: &JsonValue) -> (r: String)
    ensures
        r@ == shard_text(s@),
{
    let mut out = String::new();
    match s {
        JsonValue::Object(o) => {
            let ghost parts = members_view(o@).map_values(|p: (Seq<char>, JsonView)| match p.1 {
                JsonView::Str(x) => x,
                _ => Seq::<char>::empty(),
            });
            assert(shard_text(s@) == crate::ui::json_lines::spec_join(parts, seq![' '])) by {
                if let JsonView::Object(x) = s@ {
                    assert(x =~= members_view(o@));
                }
            }
            let mut i: usize = 0;
            while i < o.len()
                invariant
                    i <= o.len(),
                    parts == members_view(o@).map_values(|p: (Seq<char>, JsonView)| match p.1 {
                        JsonView::Str(x) => x,
                        _ => Seq::<char>::empty(),
                    }),
                    out@ == crate::ui::json_lines::spec_join(parts.take(i as int), seq![' ']),
                decreases o.len() - i,
            {
                let ghost prev = out@;
                let ghost item = parts[i as int];
                proof {
                    crate::ui::json_lines::lemma_join_take_step(parts, seq![' '], i as int);
                }
                if i > 0 {
                    crate::text::push_char(&mut out, ' ');
                }
                let ghost mid = out@;
                assert(mid == if i > 0 { prev + seq![' '] } else { prev });
                match &o[i].1 {
                    JsonValue::Str(x) => {
                        assert(item == x@);
                        append_str(&mut out, x.as_str());
                        assert(out@ == mid + item);
                    },
                    _ => {
                        assert(item == Seq::<char>::empty());
                        assert(out@ =~= mid + item);
                    },
                }
                assert(out@ =~= crate::ui::json_lines::spec_join(parts.take(i + 1), seq![' ']));
                i = i + 1;
            }
            assert(parts.take(o.len() as int) =~= parts);
        },
        _ => {},
    }
    out
}

impl App {
    /// The shard of the open index detail whose allocation explanation is asked for.
    pub fn vr_shard_explain_target(&self) -> (r: Option<ShardTarget>)
        ensures
            match r {
                Some(t) => spec_shard_target(match self.viewer.shards_detail {
                    Some(d) => Some((d.data@, d.scroll, d.filter@)),
                    None => None,
                }) == Some((t.index@, t.shard_num@, t.is_primary, t.shard@)),
                None => spec_shard_target(match self.viewer.shards_detail {
                    Some(d) => Some((d.data@, d.scroll, d.filter@)),
                    None => None,
                }) is None,
            },
    {
        proof {
            reveal_strlit("shards");
            reveal_strlit("shard");
            reveal_strlit("index");
            reveal_strlit("prirep");
            reveal_strlit("p");
        }
        let detail = match &self.viewer.shards_detail {
            Some(d) => d,
            None => {
                return None;
            },
        };
        let shards = match detail.data.get("shards") {
            Some(v) => match v.as_array() {
                Some(a) => a,
                None => {
                    return None;
                },
            },
            None => {
                return None;
            },
        };
        let fl = to_lowercase(detail.filter.as_str());
        let ghost sv = json_views(shards@);
        let ghost kept = shards_matching(sv, fl@);
        let selected = detail.scroll as usize;
        let mut count: usize = 0;
        let mut found: Option<usize> = None;
        let mut i: usize = 0;
        while i < shards.len()
            invariant
                i <= shards.len(),
                sv == json_views(shards@),
                count == shards_matching(sv.take(i as int), fl@).len(),
                count <= i,
                found is None ==> count <= selected,
                found matches Some(j) ==> j < i && shards_matching(sv, fl@).len() > selected
                    && shards_matching(sv, fl@)[selected as int] == sv[j as int],
                found is None ==> (forall|m: int| 0 <= m < count ==> shards_matching(sv, fl@)[m] == shards_matching(sv.take(i as int), fl@)[m]),
            decreases shards.len() - i,
        {
            assert(sv.take(i + 1).drop_last() =~= sv.take(i as int));
            assert(sv.take(i + 1).last() == sv[i as int]);
            let t = shard_text_of(&shards[i]);
            let low = to_lowercase(t.as_str());
            let keep = fl.as_str().unicode_len() == 0 || contains(low.as_str(), fl.as_str());
            if keep {
                if found.is_none() && count == selected {
                    proof {
                        lemma_matching_prefix(sv, fl@, i + 1);
                        let b = shards_matching(sv.take(i + 1), fl@);
                        assert(b.len() == count + 1);
                        assert(b[selected as int] == sv[i as int]);
                    }
                    found = Some(i);
                }
                count = count + 1;
            }
            proof {
                if found is None {
                    lemma_matching_prefix(sv, fl@, i + 1);
                }
            }
            i = i + 1;
        }
        assert(sv.take(shards.len() as int) =~= sv);
        let j = match found {
            Some(j) => j,
            None => {
                return None;
            },
        };
        let shard = &shards[j];
        let num = match shard.get("shard") {
            Some(JsonValue::Number(t)) => t.clone(),
            Some(JsonValue::Str(x)) => x.clone(),
            _ => {
                return None;
            },
        };
        let index = match detail.data.get("index") {
            Some(n) => match n.as_str() {
                Some(x) => str_to_string(x),
                None => String::new(),
            },
            None => String::new(),
        };
        let is_primary = match shard.get("prirep") {
            Some(p) => match p.as_str() {
                Some(x) => string_eq_str(&str_to_string(x), "p"),
                None => false,
            },
            None => false,
        };
        Some(ShardTarget { index, shard_num: num, is_primary, shard: shard.duplicate() })
    }
}

/// The shards a filter keeps among the first `i` are the first ones it keeps among all.
proof fn lemma_matching_prefix(sv: Seq<JsonView>, fl: Seq<char>, i: int)
    requires
        0 <= i <= sv.len(),
    ensures
        shards_matching(sv, fl).len() >= shards_matching(sv.take(i), fl).len(),
        forall|m: int| 0 <= m < shards_matching(sv.take(i), fl).len()
            ==> shards_matching(sv, fl)[m] == #[trigger] shards_matching(sv.take(i), fl)[m],
    decreases sv.len() - i,
{
    if i < sv.len() {
        lemma_matching_prefix(sv, fl, i + 1);
        assert(sv.take(i + 1).drop_last() =~= sv.take(i));
        let a = shards_matching(sv.take(i), fl);
        let b = shards_matching(sv.take(i + 1), fl);
        assert forall|m: int| 0 <= m < a.len() implies b[m] == a[m] by {}
    } else {
        assert(sv.take(i) =~= sv);
    }
}

/// The members inserted one by one into a map, as a JSON map takes them.
pub open spec fn insert_all(acc: Seq<(Seq<char>, JsonView)>, m: Seq<(Seq<char>, JsonView)>) -> Seq<(Seq<char>, JsonView)>
    decreases m.len(),
{
    if m.len() == 0 {
        acc
    } else {
        object_insert(insert_all(acc, m.drop_last()), m.last().0, m.last().1)
    }
}

/// A shard with its allocation explanation added as `_explain`.
pub open spec fn explained_shard(shard: JsonView, explain: JsonView) -> JsonView {
    let members = match shard {
        JsonView::Object(m) => insert_all(seq![], m),
        _ => seq![],
    };
    JsonView::Object(object_insert(members, "_explain"@, explain))
}

impl App {
    /// Opens the sub-detail of a shard: its members with its allocation explanation.
    pub fn vr_apply_shard_explain(&mut self, shard: &JsonValue, explain: JsonValue)
        ensures
            final(self).viewer.shards_sub_detail is Some,
            final(self).viewer.shards_sub_detail->0.data@ == explained_shard(shard@, explain@),
            final(self).viewer.shards_sub_detail->0.scroll == 0,
            final(self).viewer.shards_sub_detail->0.filter@ == Seq::<char>::empty(),
            final(self).viewer.shards_sub_detail->0.filter_cursor == 0,
            final(self).status_msg@ == Seq::<char>::empty(),
            *final(self) == (App {
                viewer: ViewerState { shards_sub_detail: final(self).viewer.shards_sub_detail, ..old(self).viewer },
                status_msg: final(self).status_msg,
                ..*old(self)
            }),
    {
        proof {
            reveal_strlit("_explain");
        }
        let mut combined: Vec<(String, JsonValue)> = Vec::new();
        match shard {
            JsonValue::Object(o) => {
                let ghost mv = members_view(o@);
                assert(shard@ == JsonView::Object(mv)) by {
                    if let JsonView::Object(x) = shard@ {
                        assert(x =~= mv);
                    }
                }
                assert(members_view(combined@) =~= seq![]);
                let mut i: usize = 0;
                while i < o.len()
                    invariant
                        i <= o.len(),
                        mv == members_view(o@),
                        members_view(combined@) == insert_all(seq![], mv.take(i as int)),
                    decreases o.len() - i,
                {
                    assert(mv.take(i + 1).drop_last() =~= mv.take(i as int));
                    assert(mv.take(i + 1).last() == mv[i as int]);
                    insert_member(&mut combined, o[i].0.clone(), o[i].1.duplicate());
                    i = i + 1;
                }
                assert(mv.take(o.len() as int) =~= mv);
            },
            _ => {
                assert(members_view(combined@) =~= seq![]);
            },
        }
        let ghost ev = explain@;
        insert_member(&mut combined, str_to_string("_explain"), explain);
        let data = JsonValue::Object(combined);
        proof {
            if let JsonView::Object(x) = data@ {
                assert(x =~= members_view(combined@));
            }
        }
        assert(data@ == explained_shard(shard@, ev));
        self.viewer.shards_sub_detail = Some(StatsDetail { data, scroll: 0, filter: String::new(), filter_cursor: 0 });
        self.status_msg = String::new();
    }
}

/// Members in the strict order of their keys, as a JSON map holds them.
pub open spec fn keys_sorted(m: Seq<(Seq<char>, JsonView)>) -> bool {
    forall|a: int, b: int| 0 <= a < b < m.len() ==> seq_lt(#[trigger] m[a].0, #[trigger] m[b].0)
}

proof fn lemma_member_at(m: Seq<(Seq<char>, JsonView)>, key: Seq<char>, j: int)
    requires
        0 <= j < m.len(),
        m[j].0 == key,
        forall|i: int| 0 <= i < j ==> (#[trigger] m[i]).0 != key,
    ensures
        spec_member(m, key) == Some(m[j].1),
    decreases j,
{
    if j > 0 {
        assert forall|i: int| 0 <= i < j - 1 implies (#[trigger] m.drop_first()[i]).0 != key by {
            assert(m.drop_first()[i] == m[i + 1]);
        }
        lemma_member_at(m.drop_first(), key, j - 1);
    }
}

proof fn lemma_member_none(m: Seq<(Seq<char>, JsonView)>, key: Seq<char>)
    requires
        forall|i: int| 0 <= i < m.len() ==> (#[trigger] m[i]).0 != key,
    ensures
        spec_member(m, key) is None,
    decreases m.len(),
{
    if m.len() > 0 {
        assert forall|i: int| 0 <= i < m.len() - 1 implies (#[trigger] m.drop_first()[i]).0 != key by {
            assert(m.drop_first()[i] == m[i + 1]);
        }
        lemma_member_none(m.drop_first(), key);
    }
}

/// In sorted members, the member of a key is the one at the key's position.
proof fn lemma_sorted_member(m: Seq<(Seq<char>, JsonView)>, key: Seq<char>)
    requires
        keys_sorted(m),
    ensures
        (exists|j: int| 0 <= j < m.len() && m[j].0 == key) ==> spec_member(m, key) == Some(m[choose|j: int| 0 <= j < m.len() && m[j].0 == key].1),
        (forall|j: int| 0 <= j < m.len() ==> m[j].0 != key) ==> spec_member(m, key) is None,
{
    if exists|j: int| 0 <= j < m.len() && m[j].0 == key {
        let j = choose|j: int| 0 <= j < m.len() && m[j].0 == key;
        assert forall|i: int| 0 <= i < j implies (#[trigger] m[i]).0 != key by {
            assert(seq_lt(m[i].0, m[j].0));
            lemma_seq_lt_irreflexive(key);
        }
        lemma_member_at(m, key, j);
    } else {
        lemma_member_none(m, key);
    }
}

/// Inserting into a JSON map keeps its keys in order; the inserted key then reads
/// back the inserted value, and every other key reads back what it read before.
pub proof fn lemma_object_insert_reads_back(m: Seq<(Seq<char>, JsonView)>, k: Seq<char>, v: JsonView, other: Seq<char>)
    requires
        keys_sorted(m),
        other != k,
    ensures
        keys_sorted(object_insert(m, k, v)),
        spec_member(object_insert(m, k, v), k) == Some(v),
        spec_member(object_insert(m, k, v), other) == spec_member(m, other),
{
    let p = key_not_below(k);
    lemma_first_index_bounds(m, p);
    let i = first_index(m, p);
    let r = object_insert(m, k, v);
    // every key before i is below k, every key from i on is not
    assert forall|j: int| i <= j < m.len() implies !seq_lt(#[trigger] m[j].0, k) by {
        if j > i {
            assert(seq_lt(m[i].0, m[j].0));
            if seq_lt(m[j].0, k) {
                lemma_seq_lt_transitive(m[i].0, m[j].0, k);
            }
        }
    }
    if i < m.len() && m[i].0 == k {
        assert(r == m.update(i, (k, v)));
        assert forall|a: int, b: int| 0 <= a < b < r.len() implies seq_lt(#[trigger] r[a].0, #[trigger] r[b].0) by {
            assert(r[a].0 == m[a].0 && r[b].0 == m[b].0);
        }
        assert(r[i].0 == k && r[i].1 == v);
        lemma_sorted_member(r, k);
        let jk = choose|j: int| 0 <= j < r.len() && r[j].0 == k;
        if jk != i {
            if jk < i {
                assert(seq_lt(r[jk].0, r[i].0));
            } else {
                assert(seq_lt(r[i].0, r[jk].0));
            }
            lemma_seq_lt_irreflexive(k);
        }
        lemma_sorted_member(r, other);
        lemma_sorted_member(m, other);
        assert forall|j: int| 0 <= j < r.len() implies (#[trigger] r[j].0 == other) == (m[j].0 == other) by {}
        if exists|j: int| 0 <= j < m.len() && m[j].0 == other {
            let j = choose|j: int| 0 <= j < m.len() && m[j].0 == other;
            assert(r[j].0 == other);
            let jr = choose|j: int| 0 <= j < r.len() && r[j].0 == other;
            if jr != j {
                if jr < j {
                    assert(seq_lt(m[jr].0, m[j].0));
                } else {
                    assert(seq_lt(m[j].0, m[jr].0));
                }
                lemma_seq_lt_irreflexive(other);
            }
        }
    } else {
        assert(r == m.insert(i, (k, v)));
        if i < m.len() {
            lemma_seq_lt_total(m[i].0, k);
        }
        assert forall|j: int| i <= j < m.len() implies seq_lt(k, #[trigger] m[j].0) by {
            lemma_seq_lt_total(m[i].0, k);
            if j > i {
                assert(seq_lt(m[i].0, m[j].0));
                lemma_seq_lt_transitive(k, m[i].0, m[j].0);
            }
        }
        assert forall|a: int, b: int| 0 <= a < b < r.len() implies seq_lt(#[trigger] r[a].0, #[trigger] r[b].0) by {
            if b < i {
                assert(r[a] == m[a] && r[b] == m[b]);
            } else if b == i {
                assert(r[a] == m[a]);
                assert(!p(m[a]));
            } else if a < i {
                assert(r[a] == m[a] && r[b] == m[b - 1]);
                assert(!p(m[a]));
                lemma_seq_lt_transitive(m[a].0, k, m[b - 1].0);
            } else if a == i {
                assert(r[b] == m[b - 1]);
            } else {
                assert(r[a] == m[a - 1] && r[b] == m[b - 1]);
            }
        }
        assert(r[i].0 == k && r[i].1 == v);
        lemma_sorted_member(r, k);
        let jk = choose|j: int| 0 <= j < r.len() && r[j].0 == k;
        if jk != i {
            if jk < i {
                assert(seq_lt(r[jk].0, r[i].0));
            } else {
                assert(seq_lt(r[i].0, r[jk].0));
            }
            lemma_seq_lt_irreflexive(k);
        }
        lemma_sorted_member(r, other);
        lemma_sorted_member(m, other);
        if exists|j: int| 0 <= j < m.len() && m[j].0 == other {
            let j = choose|j: int| 0 <= j < m.len() && m[j].0 == other;
            let jj = if j < i { j } else { j + 1 };
            assert(r[jj] == m[j]);
            let jr = choose|j: int| 0 <= j < r.len() && r[j].0 == other;
            if jr != jj {
                if jr < jj {
                    assert(seq_lt(r[jr].0, r[jj].0));
                } else {
                    assert(seq_lt(r[jj].0, r[jr].0));
                }
                lemma_seq_lt_irreflexive(other);
            }
        } else {
            assert forall|j: int| 0 <= j < r.len() implies r[j].0 != other by {
                if j < i {
                    assert(r[j] == m[j]);
                } else if j > i {
                    assert(r[j] == m[j - 1]);
                }
            }
        }
    }
}

proof fn lemma_keys_where(keys: Seq<Seq<char>>)
    ensures
        forall|i: int| 0 <= i < keys_where(keys, true).len() ==> #[trigger] keys_where(keys, true)[i] == unassigned(),
        forall|i: int| 0 <= i < keys_where(keys, false).len() ==> #[trigger] keys_where(keys, false)[i] != unassigned(),
        keys_where(keys, true).to_multiset().add(keys_where(keys, false).to_multiset()) == keys.to_multiset(),
    decreases keys.len(),
{
    broadcast use vstd::seq_lib::group_to_multiset_ensures;
    if keys.len() == 0 {
        assert(keys_where(keys, true) =~= seq![]);
        assert(keys_where(keys, false) =~= seq![]);
        assert(keys_where(keys, true).to_multiset().add(keys_where(keys, false).to_multiset()) =~= keys.to_multiset());
    } else {
        let k = keys.last();
        lemma_keys_where(keys.drop_last());
        let t0 = keys_where(keys.drop_last(), true);
        let f0 = keys_where(keys.drop_last(), false);
        assert(keys =~= keys.drop_last().push(k));
        if k == unassigned() {
            assert(keys_where(keys, true) =~= t0.push(k));
            assert(keys_where(keys, false) =~= f0);
            assert(keys_where(keys, true).to_multiset() =~= t0.to_multiset().insert(k));
        } else {
            assert(keys_where(keys, true) =~= t0);
            assert(keys_where(keys, false) =~= f0.push(k));
            assert(keys_where(keys, false).to_multiset() =~= f0.to_multiset().insert(k));
        }
        assert(keys.to_multiset() =~= keys.drop_last().to_multiset().insert(k));
        assert(keys_where(keys, true).to_multiset().add(keys_where(keys, false).to_multiset()) =~= keys.to_multiset());
    }
}

/// The grid's node order holds the node names as they came, `Unassigned` first and
/// the others in the order of their text.
pub proof fn lemma_node_order(keys: Seq<Seq<char>>)
    ensures
        spec_node_order(keys).to_multiset() == keys.to_multiset(),
        forall|i: int| 0 <= i < keys_where(keys, true).len() ==> #[trigger] spec_node_order(keys)[i] == unassigned(),
        forall|a: int, b: int| keys_where(keys, true).len() <= a < b < spec_node_order(keys).len()
            ==> spec_node_order(keys)[a] != unassigned() && !seq_lt(#[trigger] spec_node_order(keys)[b], #[trigger] spec_node_order(keys)[a]),
{
    broadcast use vstd::seq_lib::group_to_multiset_ensures;
    lemma_keys_where(keys);
    let u = keys_where(keys, true);
    let rest = keys_where(keys, false);
    let before = text_before(rest, false);
    let so = stable_order(rest.len(), before);
    let sorted_rest = so.map_values(|i: int| rest[i]);
    let r = spec_node_order(keys);
    assert(r == u + sorted_rest);
    crate::seqs::lemma_stable_order_multiset(rest, before);
    crate::seqs::lemma_stable_order_permutation(rest.len(), before);
    assert(r.to_multiset() =~= u.to_multiset().add(sorted_rest.to_multiset())) by {
        vstd::seq_lib::lemma_multiset_commutative(u, sorted_rest);
    }
    assert forall|i: int| 0 <= i < u.len() implies #[trigger] r[i] == unassigned() by {
        assert(r[i] == u[i]);
    }
    if rest.len() > 0 {
        crate::seqs::lemma_text_before_strict(rest, false);
        crate::seqs::lemma_stable_order_sorted(rest.len(), before);
    }
    assert forall|a: int, b: int| u.len() <= a < b < r.len()
        implies r[a] != unassigned() && !seq_lt(#[trigger] r[b], #[trigger] r[a]) by {
        let ia = a - u.len();
        let ib = b - u.len();
        assert(r[a] == rest[so[ia]]);
        assert(r[b] == rest[so[ib]]);
        assert(0 <= so[ia] < rest.len());
        assert(!before(so[ib], so[ia]));
    }
}

} // verus!
