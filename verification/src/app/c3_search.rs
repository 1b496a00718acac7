//! A Cont3xt search as the client runs it: the request it sends, the results and
//! parent links that stream in, and what the finished search leaves behind.
use vstd::prelude::*;
use vstd::string::StrSliceExecFns;
use crate::app::c3_tree::{C3Row, key_view, keys_view, entries_view, c3_tree_rows, tree_order_of, rows_view,
    spec_tree_rows, tree_item_of, tree_items_view, root_positions};
use crate::app::cont3xt::{C3TreeItem, Cont3xtFocus};
use crate::app::columns::string_views;
use crate::app::viewer_data::str_at;
use crate::json::{JsonValue, JsonView, json_views};
use crate::text::{str_to_string, string_eq};
use crate::ui::format::{number_text, spec_digits};
use crate::ui::json_lines::{append_str, json_to_string, json_text};

verus! {

/// The answer of one integration for one indicator; an answer without a name links
/// an indicator to the indicator it was derived from.
pub struct Cont3xtResult {
    pub itype: String,
    pub indicator: String,
    pub name: String,
    pub data: JsonValue,
}

pub struct Cont3xtResultView {
    pub itype: Seq<char>,
    pub indicator: Seq<char>,
    pub name: Seq<char>,
    pub data: JsonView,
}

impl View for Cont3xtResult {
    type V = Cont3xtResultView;

    open spec fn view(&self) -> Cont3xtResultView {
        Cont3xtResultView { itype: self.itype@, indicator: self.indicator@, name: self.name@, data: self.data@ }
    }
}

pub open spec fn result_views(v: Seq<Cont3xtResult>) -> Seq<Cont3xtResultView> {
    v.map_values(|r: Cont3xtResult| r@)
}

impl Cont3xtResult {
    pub fn duplicate(&self) -> (r: Cont3xtResult)
        ensures
            r@ == self@,
    {
        Cont3xtResult {
            itype: self.itype.clone(),
            indicator: self.indicator.clone(),
            name: self.name.clone(),
            data: self.data.duplicate(),
        }
    }
}

/// The search side of the Cont3xt screen.
pub struct C3SearchState {
    pub results: Vec<Cont3xtResult>,
    /// `((indicator, itype), [(parent query, parent itype)])`, each key once
    pub indicator_parents: Vec<((String, String), Vec<(String, String)>)>,
    /// `(itype, query)` in the order of the search's answer
    pub init_indicators: Vec<(String, String)>,
    pub search_total: u64,
    pub search_sent: u64,
    pub search_itype: String,
    pub selected: usize,
    pub detail_scroll: u16,
    pub searching: bool,
    pub pending_search: bool,
    pub no_cache: bool,
    pub tags: Vec<String>,
    pub active_view_id: Option<String>,
    pub disabled_integrations: Vec<String>,
    pub focus: Cont3xtFocus,
    pub tree_order: Vec<C3TreeItem>,
    pub tree_roots: Vec<usize>,
}

/// The parent link that an unnamed answer carries: `(_link_parent_query,
/// _link_parent_itype)`, each empty where missing.
pub open spec fn parent_link(data: JsonView) -> (Seq<char>, Seq<char>) {
    (
        match str_at(data, "_link_parent_query"@) { Some(x) => x, None => seq![] },
        match str_at(data, "_link_parent_itype"@) { Some(x) => x, None => seq![] },
    )
}

pub open spec fn entry_key_is(k: (Seq<char>, Seq<char>)) -> spec_fn(((Seq<char>, Seq<char>), Seq<(Seq<char>, Seq<char>)>)) -> bool {
    |e: ((Seq<char>, Seq<char>), Seq<(Seq<char>, Seq<char>)>)| e.0 == k
}

/// Adds `p` to the parents of key `k`: at the end of its entry, or in a new entry
/// at the end.
pub open spec fn entry_push(
    entries: Seq<((Seq<char>, Seq<char>), Seq<(Seq<char>, Seq<char>)>)>,
    k: (Seq<char>, Seq<char>),
    p: (Seq<char>, Seq<char>),
) -> Seq<((Seq<char>, Seq<char>), Seq<(Seq<char>, Seq<char>)>)> {
    let i = crate::seqs::first_index(entries, entry_key_is(k));
    if i < entries.len() {
        entries.update(i, (k, entries[i].1.push(p)))
    } else {
        entries.push((k, seq![p]))
    }
}

/// The state after taking in streamed answers: each named answer is a result,
/// each unnamed one a parent link of its `(indicator, itype)`.
pub open spec fn drained(
    results: Seq<Cont3xtResultView>,
    entries: Seq<((Seq<char>, Seq<char>), Seq<(Seq<char>, Seq<char>)>)>,
    items: Seq<Cont3xtResultView>,
) -> (Seq<Cont3xtResultView>, Seq<((Seq<char>, Seq<char>), Seq<(Seq<char>, Seq<char>)>)>)
    decreases items.len(),
{
    if items.len() == 0 {
        (results, entries)
    } else {
        let before = drained(results, entries, items.drop_last());
        let it = items.last();
        if it.name.len() == 0 {
            (before.0, entry_push(before.1, (it.indicator, it.itype), parent_link(it.data)))
        } else {
            (before.0.push(it), before.1)
        }
    }
}

fn parent_link_of(data: &JsonValue) -> (r: (String, String))
    ensures
        (r.0@, r.1@) == parent_link(data@),
{
    proof {
        reveal_strlit("_link_parent_query");
        reveal_strlit("_link_parent_itype");
    }
    let q = match data.get("_link_parent_query") {
        Some(v) => match v.as_str() {
            Some(x) => str_to_string(x),
            None => String::new(),
        },
        None => String::new(),
    };
    let t = match data.get("_link_parent_itype") {
        Some(v) => match v.as_str() {
            Some(x) => str_to_string(x),
            None => String::new(),
        },
        None => String::new(),
    };
    (q, t)
}

/// Adds a parent link to the entry of `k`.
fn push_parent(entries: &mut Vec<((String, String), Vec<(String, String)>)>, k: (String, String), p: (String, String))
    ensures
        entries_view(final(entries)@) == entry_push(entries_view(old(entries)@), key_view(k), key_view(p)),
{
    let ghost ev = entries_view(entries@);
    let ghost pred = entry_key_is(key_view(k));
    let mut i: usize = 0;
    while i < entries.len() && !(string_eq(&entries[i].0.0, &k.0) && string_eq(&entries[i].0.1, &k.1))
        invariant
            i <= entries.len(),
            ev == entries_view(entries@),
            pred == entry_key_is(key_view(k)),
            forall|j: int| 0 <= j < i ==> !pred(#[trigger] ev[j]),
        decreases entries.len() - i,
    {
        i = i + 1;
    }
    proof {
        if i < entries.len() {
            crate::seqs::lemma_first_match_at(ev, pred, i as int);
        } else {
            crate::seqs::lemma_first_match_none(ev, pred);
        }
    }
    if i < entries.len() {
        let ghost old_entries = entries@;
        let (key, mut ps) = entries.remove(i);
        let ghost pv = keys_view(ps@);
        ps.push(p);
        assert(keys_view(ps@) =~= pv.push(key_view(p)));
        entries.insert(i, (key, ps));
        assert(entries_view(entries@) =~= ev.update(i as int, (key_view(k), pv.push(key_view(p)))));
    } else {
        let mut ps: Vec<(String, String)> = Vec::new();
        ps.push(p);
        assert(keys_view(ps@) =~= seq![key_view(p)]);
        entries.push((k, ps));
        assert(entries_view(entries@) =~= ev.push((key_view(k), seq![key_view(p)])));
    }
}

impl C3SearchState {
    /// Takes in the answers streamed since the last call (those from `consumed` on)
    /// and returns how many have been taken in.
    pub fn drain_c3_results(&mut self, items: &Vec<Cont3xtResult>, consumed: usize) -> (r: usize)
        requires
            consumed <= items.len(),
        ensures
            r == items.len(),
            (result_views(final(self).results@), entries_view(final(self).indicator_parents@)) == drained(
                result_views(old(self).results@),
                entries_view(old(self).indicator_parents@),
                result_views(items@).subrange(consumed as int, items.len() as int),
            ),
            *final(self) == (C3SearchState {
                results: final(self).results,
                indicator_parents: final(self).indicator_parents,
                ..*old(self)
            }),
    {
        let ghost r0 = result_views(self.results@);
        let ghost e0 = entries_view(self.indicator_parents@);
        let ghost iv = result_views(items@);
        let mut i: usize = consumed;
        assert(iv.subrange(consumed as int, consumed as int) =~= seq![]);
        while i < items.len()
            invariant
                consumed <= i <= items.len(),
                iv == result_views(items@),
                (result_views(self.results@), entries_view(self.indicator_parents@)) == drained(r0, e0, iv.subrange(consumed as int, i as int)),
                *self == (C3SearchState { results: self.results, indicator_parents: self.indicator_parents, ..*old(self) }),
            decreases items.len() - i,
        {
            let ghost sub = iv.subrange(consumed as int, i + 1);
            assert(sub.drop_last() =~= iv.subrange(consumed as int, i as int));
            assert(sub.last() == items@[i as int]@);
            let it = &items[i];
            if it.name.as_str().unicode_len() == 0 {
                let link = parent_link_of(&it.data);
                push_parent(&mut self.indicator_parents, (it.indicator.clone(), it.itype.clone()), link);
            } else {
                let ghost prev = self.results@;
                let d = it.duplicate();
                self.results.push(d);
                assert(result_views(self.results@) =~= result_views(prev).push(d@));
            }
            i = i + 1;
        }
        items.len()
    }
}

pub open spec fn str_array(items: Seq<Seq<char>>) -> JsonView {
    JsonView::Array(items.map_values(|x: Seq<char>| JsonView::Str(x)))
}

/// The body of a search request: the query, and where they apply the integrations
/// to run, the cache bypass, the tags and the view, members in the order of their
/// keys.
pub open spec fn search_body(
    query: Seq<char>,
    no_cache: bool,
    view_id: Option<Seq<char>>,
    enabled: Option<Seq<Seq<char>>>,
    tags: Seq<Seq<char>>,
) -> JsonView {
    JsonView::Object(
        (match enabled {
            Some(e) => seq![("doIntegrations"@, str_array(e))],
            None => seq![],
        }) + seq![("query"@, JsonView::Str(query))] + (if no_cache {
            seq![("skipCache"@, JsonView::Number("1"@))]
        } else {
            seq![]
        }) + (if tags.len() > 0 {
            seq![("tags"@, str_array(tags))]
        } else {
            seq![]
        }) + (match view_id {
            Some(v) => seq![("viewId"@, JsonView::Str(v))],
            None => seq![],
        }),
    )
}

fn str_array_of(items: &Vec<String>) -> (r: JsonValue)
    ensures
        r@ == str_array(string_views(items@)),
{
    let ghost iv = string_views(items@);
    let mut out: Vec<JsonValue> = Vec::new();
    let mut i: usize = 0;
    while i < items.len()
        invariant
            i <= items.len(),
            iv == string_views(items@),
            json_views(out@) == iv.take(i as int).map_values(|x: Seq<char>| JsonView::Str(x)),
        decreases items.len() - i,
    {
        let ghost prev = out@;
        let v = JsonValue::Str(items[i].clone());
        out.push(v);
        assert(json_views(out@) =~= json_views(prev).push(v@));
        assert(json_views(out@) =~= iv.take(i + 1).map_values(|x: Seq<char>| JsonView::Str(x)));
        i = i + 1;
    }
    assert(iv.take(items.len() as int) =~= iv);
    let r = JsonValue::Array(out);
    proof {
        if let JsonView::Array(x) = r@ {
            assert(x =~= json_views(out@));
        }
    }
    r
}

pub open spec fn opt_str_view(o: Option<String>) -> Option<Seq<char>> {
    match o {
        Some(s) => Some(s@),
        None => None,
    }
}

/// The status line of a finished search.
pub open spec fn search_done_msg(count: nat) -> Seq<char> {
    "Search complete: "@ + spec_digits(count) + " integrations returned data"@
}

impl C3SearchState {
    /// Starts the pending search: clears what the last search left and returns the
    /// body of the request, with the integrations to run (`enabled`) only when some
    /// are switched off. A cache bypass is asked for once.
    pub fn start_search(&mut self, query: &str, enabled: &Vec<String>) -> (body: String)
        ensures
            body@ == json_text(search_body(
                query@,
                old(self).no_cache,
                opt_str_view(old(self).active_view_id),
                if old(self).disabled_integrations@.len() > 0 { Some(string_views(enabled@)) } else { None },
                string_views(old(self).tags@),
            )),
            final(self).results@.len() == 0,
            final(self).indicator_parents@.len() == 0,
            final(self).init_indicators@.len() == 0,
            *final(self) == (C3SearchState {
                results: final(self).results,
                indicator_parents: final(self).indicator_parents,
                init_indicators: final(self).init_indicators,
                search_total: 0,
                search_sent: 0,
                selected: 0,
                detail_scroll: 0,
                searching: true,
                pending_search: false,
                no_cache: false,
                ..*old(self)
            }),
    {
        proof {
            reveal_strlit("doIntegrations");
            reveal_strlit("query");
            reveal_strlit("skipCache");
            reveal_strlit("1");
            reveal_strlit("tags");
            reveal_strlit("viewId");
        }
        let ghost view_id = opt_str_view(self.active_view_id);
        let ghost en = if self.disabled_integrations@.len() > 0 { Some(string_views(enabled@)) } else { None };
        let ghost tv = string_views(self.tags@);
        let mut members: Vec<(String, JsonValue)> = Vec::new();
        if self.disabled_integrations.len() > 0 {
            members.push((str_to_string("doIntegrations"), str_array_of(enabled)));
        }
        let ghost m1 = crate::app::shards::members_view(members@);
        members.push((str_to_string("query"), JsonValue::Str(str_to_string(query))));
        let ghost m2 = crate::app::shards::members_view(members@);
        assert(m2 =~= m1 + seq![("query"@, JsonView::Str(query@))]);
        if self.no_cache {
            members.push((str_to_string("skipCache"), JsonValue::Number(str_to_string("1"))));
        }
        let ghost m3 = crate::app::shards::members_view(members@);
        if self.tags.len() > 0 {
            members.push((str_to_string("tags"), str_array_of(&self.tags)));
        }
        let ghost m4 = crate::app::shards::members_view(members@);
        match &self.active_view_id {
            Some(v) => {
                members.push((str_to_string("viewId"), JsonValue::Str(v.clone())));
            },
            None => {},
        }
        let ghost m5 = crate::app::shards::members_view(members@);
        let doc = JsonValue::Object(members);
        proof {
            assert(m1 =~= (match en { Some(e) => seq![("doIntegrations"@, str_array(e))], None => seq![] }));
            assert(m3 =~= m2 + (if old(self).no_cache { seq![("skipCache"@, JsonView::Number("1"@))] } else { seq![] }));
            assert(m4 =~= m3 + (if tv.len() > 0 { seq![("tags"@, str_array(tv))] } else { seq![] }));
            assert(m5 =~= m4 + (match view_id { Some(v) => seq![("viewId"@, JsonView::Str(v))], None => seq![] }));
            if let JsonView::Object(x) = doc@ {
                assert(x =~= m5);
            }
            assert(doc@ == search_body(query@, old(self).no_cache, view_id, en, tv));
        }
        let body = json_to_string(&doc);
        self.no_cache = false;
        self.pending_search = false;
        self.searching = true;
        self.results = Vec::new();
        self.indicator_parents = Vec::new();
        self.init_indicators = Vec::new();
        self.search_total = 0;
        self.search_sent = 0;
        self.selected = 0;
        self.detail_scroll = 0;
        body
    }

    /// Takes in the counts of a running search: the total once the server has given
    /// one, and how many integrations have answered.
    pub fn apply_progress(&mut self, live_total: u64, live_sent: u64)
        ensures
            *final(self) == (C3SearchState {
                search_total: if live_total > 0 { live_total } else { old(self).search_total },
                search_sent: live_sent,
                ..*old(self)
            }),
    {
        if live_total > 0 {
            self.search_total = live_total;
        }
        self.search_sent = live_sent;
    }

    /// Ends a search with its outcome, `(total, itype, indicators)` or an error text,
    /// and returns the status line.
    pub fn finish_search(&mut self, outcome: Result<(u64, String, Vec<(String, String)>), String>) -> (msg: String)
        ensures
            match outcome {
                Ok((total, itype, init)) => {
                    &&& msg@ == search_done_msg(old(self).results@.len())
                    &&& keys_view(final(self).init_indicators@) == keys_view(init@)
                    &&& *final(self) == (C3SearchState {
                        search_total: total,
                        search_itype: itype,
                        init_indicators: final(self).init_indicators,
                        focus: Cont3xtFocus::Results,
                        searching: false,
                        ..*old(self)
                    })
                },
                Err(e) => {
                    &&& msg@ == "Search error: "@ + e@
                    &&& *final(self) == (C3SearchState { searching: false, ..*old(self) })
                },
            },
    {
        let msg = match outcome {
            Ok((total, itype, init)) => {
                let mut m = str_to_string("Search complete: ");
                let n = number_text(self.results.len() as u64);
                append_str(&mut m, n.as_str());
                append_str(&mut m, " integrations returned data");
                self.search_total = total;
                self.search_itype = itype;
                self.init_indicators = init;
                self.focus = Cont3xtFocus::Results;
                m
            },
            Err(e) => {
                let mut m = str_to_string("Search error: ");
                append_str(&mut m, e.as_str());
                m
            },
        };
        self.searching = false;
        msg
    }

    /// The keys `(itype, indicator)` of the results, by result index.
    pub open spec fn result_keys(results: Seq<Cont3xtResult>) -> Seq<(Seq<char>, Seq<char>)> {
        results.map_values(|r: Cont3xtResult| (r.itype@, r.indicator@))
    }

    /// Rebuilds the results tree and returns its rows; `None`, with nothing changed,
    /// where the parent links hold a cycle that the tree cannot show.
    pub fn rebuild_tree(&mut self) -> (r: Option<Vec<C3Row>>)
        ensures
            match r {
                Some(rows) => {
                    &&& spec_tree_rows(keys_view(old(self).init_indicators@), Self::result_keys(old(self).results@),
                        entries_view(old(self).indicator_parents@)) == Some(rows_view(rows@))
                    &&& tree_items_view(final(self).tree_order@) == rows_view(rows@).map_values(|x: crate::app::c3_tree::C3RowView| tree_item_of(x))
                    &&& final(self).tree_roots@ == root_positions(rows_view(rows@))
                    &&& *final(self) == (C3SearchState {
                        tree_order: final(self).tree_order,
                        tree_roots: final(self).tree_roots,
                        ..*old(self)
                    })
                },
                None => {
                    &&& spec_tree_rows(keys_view(old(self).init_indicators@), Self::result_keys(old(self).results@),
                        entries_view(old(self).indicator_parents@)) is None
                    &&& *final(self) == *old(self)
                },
            },
    {
        let mut keys: Vec<(String, String)> = Vec::new();
        let mut i: usize = 0;
        while i < self.results.len()
            invariant
                i <= self.results.len(),
                keys_view(keys@) == Self::result_keys(self.results@).take(i as int),
            decreases self.results.len() - i,
        {
            let ghost prev = keys@;
            let k = (self.results[i].itype.clone(), self.results[i].indicator.clone());
            keys.push(k);
            assert(keys_view(keys@) =~= keys_view(prev).push(key_view(k)));
            assert(keys_view(keys@) =~= Self::result_keys(self.results@).take(i + 1));
            i = i + 1;
        }
        assert(Self::result_keys(self.results@).take(self.results.len() as int) =~= Self::result_keys(self.results@));
        match c3_tree_rows(&self.init_indicators, &keys, &self.indicator_parents) {
            Some(rows) => {
                let (items, roots) = tree_order_of(&rows);
                self.tree_order = items;
                self.tree_roots = roots;
                Some(rows)
            },
            None => None,
        }
    }
}

impl C3SearchState {
    /// The search side of a fresh Cont3xt screen: nothing searched, the results
    /// pane focused.
    pub fn new() -> (s: C3SearchState)
        ensures
            s.results@.len() == 0,
            s.indicator_parents@.len() == 0,
            s.init_indicators@.len() == 0,
            s.search_total == 0,
            s.search_sent == 0,
            s.search_itype@ == Seq::<char>::empty(),
            s.selected == 0,
            s.detail_scroll == 0,
            !s.searching,
            !s.pending_search,
            !s.no_cache,
            s.tags@.len() == 0,
            s.active_view_id is None,
            s.disabled_integrations@.len() == 0,
            s.focus == Cont3xtFocus::Results,
            s.tree_order@.len() == 0,
            s.tree_roots@.len() == 0,
    {
        C3SearchState {
            results: Vec::new(),
            indicator_parents: Vec::new(),
            init_indicators: Vec::new(),
            search_total: 0,
            search_sent: 0,
            search_itype: String::new(),
            selected: 0,
            detail_scroll: 0,
            searching: false,
            pending_search: false,
            no_cache: false,
            tags: Vec::new(),
            active_view_id: None,
            disabled_integrations: Vec::new(),
            focus: Cont3xtFocus::Results,
            tree_order: Vec::new(),
            tree_roots: Vec::new(),
        }
    }
}

/// The keys of the entries of a parent map.
pub open spec fn entry_keys(entries: Seq<((Seq<char>, Seq<char>), Seq<(Seq<char>, Seq<char>)>)>) -> Seq<(Seq<char>, Seq<char>)> {
    entries.map_values(|e: ((Seq<char>, Seq<char>), Seq<(Seq<char>, Seq<char>)>)| e.0)
}

/// Adding a parent link keeps one entry per indicator, and the new parent is the
/// last of its indicator's entry.
pub proof fn lemma_entry_push_map(
    entries: Seq<((Seq<char>, Seq<char>), Seq<(Seq<char>, Seq<char>)>)>,
    k: (Seq<char>, Seq<char>),
    p: (Seq<char>, Seq<char>),
)
    requires
        entry_keys(entries).no_duplicates(),
    ensures
        entry_keys(entry_push(entries, k, p)).no_duplicates(),
        exists|i: int| 0 <= i < entry_push(entries, k, p).len() && #[trigger] entry_push(entries, k, p)[i].0 == k
            && entry_push(entries, k, p)[i].1.last() == p && entry_push(entries, k, p)[i].1.len() >= 1,
{
    let pred = entry_key_is(k);
    crate::seqs::lemma_first_index_bounds(entries, pred);
    let i = crate::seqs::first_index(entries, pred);
    let r = entry_push(entries, k, p);
    if i < entries.len() {
        assert(entry_keys(r) =~= entry_keys(entries));
        assert(r[i].0 == k);
    } else {
        assert forall|j: int| 0 <= j < entries.len() implies entries[j].0 != k by {
            assert(!pred(entries[j]));
        }
        assert(entry_keys(r) =~= entry_keys(entries).push(k));
        assert forall|a: int, b: int| 0 <= a < b < entry_keys(r).len() implies entry_keys(r)[a] != entry_keys(r)[b] by {
            if b == entries.len() {
                assert(entry_keys(r)[a] == entries[a].0);
            } else {
                assert(entry_keys(r)[a] == entry_keys(entries)[a]);
                assert(entry_keys(r)[b] == entry_keys(entries)[b]);
            }
        }
        assert(r[entries.len() as int].0 == k);
    }
}

/// Taking in streamed answers keeps one entry per indicator in the parent map.
pub proof fn lemma_drained_keys_distinct(
    results: Seq<Cont3xtResultView>,
    entries: Seq<((Seq<char>, Seq<char>), Seq<(Seq<char>, Seq<char>)>)>,
    items: Seq<Cont3xtResultView>,
)
    requires
        entry_keys(entries).no_duplicates(),
    ensures
        entry_keys(drained(results, entries, items).1).no_duplicates(),
    decreases items.len(),
{
    if items.len() > 0 {
        lemma_drained_keys_distinct(results, entries, items.drop_last());
        let before = drained(results, entries, items.drop_last());
        let it = items.last();
        if it.name.len() == 0 {
            lemma_entry_push_map(before.1, (it.indicator, it.itype), parent_link(it.data));
        }
    }
}

impl C3SearchState {
    /// The indicator and itype that the selected row of the tree stands for: those
    /// of its result or its header; the searched expression and itype when no row
    /// is selected or the result is gone.
    pub fn selected_indicator(&self, expression: &str) -> (r: (String, String))
        ensures
            (r.0@, r.1@) == (if self.selected < self.tree_order@.len() {
                match self.tree_order@[self.selected as int]@ {
                    crate::app::cont3xt::C3TreeItemView::Result(idx) => if idx < self.results@.len() {
                        (self.results@[idx as int].indicator@, self.results@[idx as int].itype@)
                    } else {
                        (expression@, self.search_itype@)
                    },
                    crate::app::cont3xt::C3TreeItemView::Indicator(t, q) => (q, t),
                }
            } else {
                (expression@, self.search_itype@)
            }),
    {
        if self.selected < self.tree_order.len() {
            match &self.tree_order[self.selected] {
                C3TreeItem::Result(idx) => {
                    if *idx < self.results.len() {
                        (self.results[*idx].indicator.clone(), self.results[*idx].itype.clone())
                    } else {
                        (str_to_string(expression), self.search_itype.clone())
                    }
                },
                C3TreeItem::Indicator(t, q) => (q.clone(), t.clone()),
            }
        } else {
            (str_to_string(expression), self.search_itype.clone())
        }
    }
}

/// Taking in streamed answers in two rounds leaves what taking them in at once does:
/// the results and links of the second round follow those of the first.
pub proof fn lemma_drained_in_rounds(
    results: Seq<Cont3xtResultView>,
    entries: Seq<((Seq<char>, Seq<char>), Seq<(Seq<char>, Seq<char>)>)>,
    first: Seq<Cont3xtResultView>,
    second: Seq<Cont3xtResultView>,
)
    ensures
        drained(results, entries, first + second)
            == drained(drained(results, entries, first).0, drained(results, entries, first).1, second),
    decreases second.len(),
{
    if second.len() == 0 {
        assert(first + second =~= first);
    } else {
        lemma_drained_in_rounds(results, entries, first, second.drop_last());
        assert((first + second).drop_last() =~= first + second.drop_last());
        assert((first + second).last() == second.last());
    }
}

} // verus!
