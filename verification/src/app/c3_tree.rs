//! The Cont3xt results tree: each indicator is listed under the indicators it was
//! derived from, and each is followed by its integration results.
use vstd::prelude::*;
use crate::app::cont3xt::{C3TreeItem, C3TreeItemView};
use crate::text::{string_eq, chars_of, string_from_chars, to_lowercase, to_uppercase, spec_to_lowercase, spec_to_uppercase};
use crate::seqs::{first_match, first_index, lemma_first_match_at, lemma_first_match_none};

verus! {

/// The view of an indicator key `(itype, query)`.
pub open spec fn key_view(k: (String, String)) -> (Seq<char>, Seq<char>) {
    (k.0@, k.1@)
}

pub open spec fn keys_view(v: Seq<(String, String)>) -> Seq<(Seq<char>, Seq<char>)> {
    v.map_values(|k: (String, String)| key_view(k))
}

/// The parent map stores keys the other way round, `(query, itype)`.
pub open spec fn swap_key(k: (Seq<char>, Seq<char>)) -> (Seq<char>, Seq<char>) {
    (k.1, k.0)
}

/// The entries of the parent map: `((indicator, itype), [(parent query, parent itype)])`.
pub open spec fn entries_view(v: Seq<((String, String), Vec<(String, String)>)>) -> Seq<((Seq<char>, Seq<char>), Seq<(Seq<char>, Seq<char>)>)> {
    v.map_values(|e: ((String, String), Vec<(String, String)>)| (key_view(e.0), keys_view(e.1@)))
}

/// `acc` followed by each key of `ks` that is not already there, in order.
pub open spec fn add_unique(acc: Seq<(Seq<char>, Seq<char>)>, ks: Seq<(Seq<char>, Seq<char>)>) -> Seq<(Seq<char>, Seq<char>)>
    decreases ks.len(),
{
    if ks.len() == 0 {
        acc
    } else {
        let a = add_unique(acc, ks.drop_last());
        if a.contains(ks.last()) {
            a
        } else {
            a.push(ks.last())
        }
    }
}

/// Every parent of every entry, as `(itype, query)`, entry by entry.
pub open spec fn parent_keys(entries: Seq<((Seq<char>, Seq<char>), Seq<(Seq<char>, Seq<char>)>)>) -> Seq<(Seq<char>, Seq<char>)>
    decreases entries.len(),
{
    if entries.len() == 0 {
        seq![]
    } else {
        parent_keys(entries.drop_last()) + entries.last().1.map_values(|p: (Seq<char>, Seq<char>)| swap_key(p))
    }
}

/// The order of the indicators: those of the search first, then those of the
/// results, then the parents named in the parent map, each once.
pub open spec fn spec_indicator_order(
    init: Seq<(Seq<char>, Seq<char>)>,
    results: Seq<(Seq<char>, Seq<char>)>,
    entries: Seq<((Seq<char>, Seq<char>), Seq<(Seq<char>, Seq<char>)>)>,
) -> Seq<(Seq<char>, Seq<char>)> {
    add_unique(add_unique(add_unique(seq![], init), results), parent_keys(entries))
}

/// Whether two keys are equal.
fn key_eq(a: &(String, String), b: &(String, String)) -> (r: bool)
    ensures
        r == (key_view(*a) == key_view(*b)),
{
    string_eq(&a.0, &b.0) && string_eq(&a.1, &b.1)
}

/// Whether a key occurs in a list of keys.
fn contains_key(v: &Vec<(String, String)>, k: &(String, String)) -> (r: bool)
    ensures
        r == keys_view(v@).contains(key_view(*k)),
{
    let mut i: usize = 0;
    while i < v.len()
        invariant
            i <= v.len(),
            forall|j: int| 0 <= j < i ==> keys_view(v@)[j] != key_view(*k),
        decreases v.len() - i,
    {
        if key_eq(&v[i], k) {
            assert(keys_view(v@)[i as int] == key_view(*k));
            return true;
        }
        i = i + 1;
    }
    false
}

/// A copy of a key.
fn copy_key(k: &(String, String)) -> (r: (String, String))
    ensures
        key_view(r) == key_view(*k),
{
    (k.0.clone(), k.1.clone())
}

/// A copy of a key with its two parts exchanged.
fn swap_copy(k: &(String, String)) -> (r: (String, String))
    ensures
        key_view(r) == swap_key(key_view(*k)),
{
    (k.1.clone(), k.0.clone())
}

/// Appends each key of `ks` that `acc` does not hold yet.
fn push_unique_all(acc: &mut Vec<(String, String)>, ks: &Vec<(String, String)>)
    ensures
        keys_view(final(acc)@) == add_unique(keys_view(old(acc)@), keys_view(ks@)),
{
    let ghost start = keys_view(acc@);
    let mut i: usize = 0;
    while i < ks.len()
        invariant
            i <= ks.len(),
            keys_view(acc@) == add_unique(start, keys_view(ks@).take(i as int)),
        decreases ks.len() - i,
    {
        let ghost ksv = keys_view(ks@);
        assert(ksv.take(i + 1).drop_last() =~= ksv.take(i as int));
        if !contains_key(acc, &ks[i]) {
            let k = copy_key(&ks[i]);
            acc.push(k);
            assert(keys_view(acc@) =~= add_unique(start, ksv.take(i as int)).push(ksv[i as int]));
        }
        i = i + 1;
    }
    assert(keys_view(ks@).take(ks.len() as int) =~= keys_view(ks@));
}

/// Every parent of every entry, with its two parts exchanged.
fn swapped_parent_keys(entries: &Vec<((String, String), Vec<(String, String)>)>) -> (r: Vec<(String, String)>)
    ensures
        keys_view(r@) == parent_keys(entries_view(entries@)),
{
    let mut out: Vec<(String, String)> = Vec::new();
    let mut i: usize = 0;
    while i < entries.len()
        invariant
            i <= entries.len(),
            keys_view(out@) == parent_keys(entries_view(entries@).take(i as int)),
        decreases entries.len() - i,
    {
        let ghost ev = entries_view(entries@);
        assert(ev.take(i + 1).drop_last() =~= ev.take(i as int));
        let ps = &entries[i].1;
        let ghost before = keys_view(out@);
        let mut j: usize = 0;
        while j < ps.len()
            invariant
                i < entries.len(),
                ps == &entries@[i as int].1,
                j <= ps.len(),
                keys_view(out@) == before + keys_view(ps@).take(j as int).map_values(|p: (Seq<char>, Seq<char>)| swap_key(p)),
            decreases ps.len() - j,
        {
            let ghost prev = out@;
            let sk = swap_copy(&ps[j]);
            out.push(sk);
            assert(keys_view(out@) =~= keys_view(prev).push(swap_key(keys_view(ps@)[j as int])));
            assert(keys_view(out@) =~= before + keys_view(ps@).take(j + 1).map_values(|p: (Seq<char>, Seq<char>)| swap_key(p)));
            j = j + 1;
        }
        assert(keys_view(ps@).take(ps.len() as int) =~= keys_view(ps@));
        assert(ev.take(i + 1).last().1 == keys_view(ps@));
        i = i + 1;
    }
    assert(entries_view(entries@).take(entries.len() as int) =~= entries_view(entries@));
    out
}

/// The order of the indicators in the tree: those of the search in their order,
/// then those of the results, then the parents named in the parent map (walked in
/// the order given), each key once.
pub fn indicator_order(
    init: &Vec<(String, String)>,
    results: &Vec<(String, String)>,
    entries: &Vec<((String, String), Vec<(String, String)>)>,
) -> (order: Vec<(String, String)>)
    ensures
        keys_view(order@) == spec_indicator_order(keys_view(init@), keys_view(results@), entries_view(entries@)),
{
    let mut order: Vec<(String, String)> = Vec::new();
    assert(keys_view(order@) =~= seq![]);
    push_unique_all(&mut order, init);
    push_unique_all(&mut order, results);
    let parents = swapped_parent_keys(entries);
    push_unique_all(&mut order, &parents);
    order
}

/// Whether an entry of the parent map is the one of indicator `k`.
pub open spec fn entry_of(k: (Seq<char>, Seq<char>)) -> spec_fn(((Seq<char>, Seq<char>), Seq<(Seq<char>, Seq<char>)>)) -> bool {
    |e: ((Seq<char>, Seq<char>), Seq<(Seq<char>, Seq<char>)>)| e.0 == swap_key(k)
}

/// The parents recorded for indicator `k`, as `(query, itype)`: those of its entry in
/// the parent map (the first, should a key occur twice), or none.
pub open spec fn parents_of(entries: Seq<((Seq<char>, Seq<char>), Seq<(Seq<char>, Seq<char>)>)>, k: (Seq<char>, Seq<char>)) -> Seq<(Seq<char>, Seq<char>)> {
    match first_match(entries, entry_of(k)) {
        Some(e) => e.1,
        None => seq![],
    }
}

/// Whether `k` is listed under a parent that is one of the ordered indicators.
pub open spec fn has_parent(
    order: Seq<(Seq<char>, Seq<char>)>,
    entries: Seq<((Seq<char>, Seq<char>), Seq<(Seq<char>, Seq<char>)>)>,
    k: (Seq<char>, Seq<char>),
) -> bool {
    exists|j: int| 0 <= j < parents_of(entries, k).len() && order.contains(swap_key(#[trigger] parents_of(entries, k)[j]))
}

/// The keys of `keys` that have no parent among the ordered indicators, in order.
pub open spec fn roots_in(
    keys: Seq<(Seq<char>, Seq<char>)>,
    order: Seq<(Seq<char>, Seq<char>)>,
    entries: Seq<((Seq<char>, Seq<char>), Seq<(Seq<char>, Seq<char>)>)>,
) -> Seq<(Seq<char>, Seq<char>)>
    decreases keys.len(),
{
    if keys.len() == 0 {
        seq![]
    } else if has_parent(order, entries, keys.last()) {
        roots_in(keys.drop_last(), order, entries)
    } else {
        roots_in(keys.drop_last(), order, entries).push(keys.last())
    }
}

/// `k` once for each parent in `ps` that is `pk`.
pub open spec fn copies_under(k: (Seq<char>, Seq<char>), ps: Seq<(Seq<char>, Seq<char>)>, pk: (Seq<char>, Seq<char>)) -> Seq<(Seq<char>, Seq<char>)>
    decreases ps.len(),
{
    if ps.len() == 0 {
        seq![]
    } else {
        copies_under(k, ps.drop_last(), pk) + (if swap_key(ps.last()) == pk { seq![k] } else { seq![] })
    }
}

/// The children of `pk` among `keys`: each key once for each time it lists `pk` as a
/// parent, in the order of `keys`; none when `pk` is not one of the ordered indicators.
pub open spec fn children_in(
    keys: Seq<(Seq<char>, Seq<char>)>,
    order: Seq<(Seq<char>, Seq<char>)>,
    entries: Seq<((Seq<char>, Seq<char>), Seq<(Seq<char>, Seq<char>)>)>,
    pk: (Seq<char>, Seq<char>),
) -> Seq<(Seq<char>, Seq<char>)>
    decreases keys.len(),
{
    if keys.len() == 0 || !order.contains(pk) {
        seq![]
    } else {
        children_in(keys.drop_last(), order, entries, pk) + copies_under(keys.last(), parents_of(entries, keys.last()), pk)
    }
}

/// The indices of the results of indicator `k`, in order.
pub open spec fn results_for(results: Seq<(Seq<char>, Seq<char>)>, k: (Seq<char>, Seq<char>)) -> Seq<usize>
    decreases results.len(),
{
    if results.len() == 0 {
        seq![]
    } else {
        results_for(results.drop_last(), k) + (if results.last() == k { seq![(results.len() - 1) as usize] } else { seq![] })
    }
}

/// The index of the entry of indicator `k` in the parent map.
fn find_entry(entries: &Vec<((String, String), Vec<(String, String)>)>, k: &(String, String)) -> (r: Option<usize>)
    ensures
        match r {
            Some(i) => i < entries.len() && first_match(entries_view(entries@), entry_of(key_view(*k))) == Some(entries_view(entries@)[i as int]),
            None => first_match(entries_view(entries@), entry_of(key_view(*k))) is None,
        },
{
    let ghost ev = entries_view(entries@);
    let ghost pred = entry_of(key_view(*k));
    let mut i: usize = 0;
    while i < entries.len()
        invariant
            i <= entries.len(),
            ev == entries_view(entries@),
            pred == entry_of(key_view(*k)),
            forall|j: int| 0 <= j < i ==> !pred(#[trigger] ev[j]),
        decreases entries.len() - i,
    {
        let e = &entries[i].0;
        if string_eq(&e.0, &k.1) && string_eq(&e.1, &k.0) {
            proof {
                lemma_first_match_at(ev, pred, i as int);
            }
            return Some(i);
        }
        i = i + 1;
    }
    proof {
        lemma_first_match_none(ev, pred);
    }
    None
}

/// The parents of indicator `k` in the parent map; none when it has no entry.
fn parents_for<'a>(entries: &'a Vec<((String, String), Vec<(String, String)>)>, none: &'a Vec<(String, String)>, k: &(String, String)) -> (r: &'a Vec<(String, String)>)
    requires
        none@.len() == 0,
    ensures
        keys_view(r@) == parents_of(entries_view(entries@), key_view(*k)),
{
    match find_entry(entries, k) {
        Some(i) => &entries[i].1,
        None => {
            assert(keys_view(none@) =~= seq![]);
            none
        },
    }
}

/// Whether indicator `k` has a parent among the ordered indicators.
fn has_parent_exec(
    order: &Vec<(String, String)>,
    entries: &Vec<((String, String), Vec<(String, String)>)>,
    k: &(String, String),
) -> (r: bool)
    ensures
        r == has_parent(keys_view(order@), entries_view(entries@), key_view(*k)),
{
    let none: Vec<(String, String)> = Vec::new();
    let ps = parents_for(entries, &none, k);
    let ghost pv = parents_of(entries_view(entries@), key_view(*k));
    let mut j: usize = 0;
    while j < ps.len()
        invariant
            j <= ps.len(),
            keys_view(ps@) == pv,
            pv == parents_of(entries_view(entries@), key_view(*k)),
            forall|m: int| 0 <= m < j ==> !keys_view(order@).contains(swap_key(#[trigger] pv[m])),
        decreases ps.len() - j,
    {
        let sk = swap_copy(&ps[j]);
        if contains_key(order, &sk) {
            assert(keys_view(order@).contains(swap_key(pv[j as int])));
            return true;
        }
        j = j + 1;
    }
    false
}

/// The indicators that head the tree: those with no parent among the ordered ones.
fn tree_roots_of(order: &Vec<(String, String)>, entries: &Vec<((String, String), Vec<(String, String)>)>) -> (r: Vec<(String, String)>)
    ensures
        keys_view(r@) == roots_in(keys_view(order@), keys_view(order@), entries_view(entries@)),
{
    let ghost ov = keys_view(order@);
    let mut out: Vec<(String, String)> = Vec::new();
    let mut i: usize = 0;
    while i < order.len()
        invariant
            i <= order.len(),
            ov == keys_view(order@),
            keys_view(out@) == roots_in(ov.take(i as int), ov, entries_view(entries@)),
        decreases order.len() - i,
    {
        assert(ov.take(i + 1).drop_last() =~= ov.take(i as int));
        if !has_parent_exec(order, entries, &order[i]) {
            let k = copy_key(&order[i]);
            out.push(k);
            assert(keys_view(out@) =~= roots_in(ov.take(i as int), ov, entries_view(entries@)).push(ov[i as int]));
        }
        i = i + 1;
    }
    assert(ov.take(order.len() as int) =~= ov);
    out
}

/// The children of `pk`, in the order of the indicators.
fn children_of(
    order: &Vec<(String, String)>,
    entries: &Vec<((String, String), Vec<(String, String)>)>,
    pk: &(String, String),
) -> (r: Vec<(String, String)>)
    ensures
        keys_view(r@) == children_in(keys_view(order@), keys_view(order@), entries_view(entries@), key_view(*pk)),
{
    let ghost ov = keys_view(order@);
    let ghost ev = entries_view(entries@);
    let ghost pkv = key_view(*pk);
    let mut out: Vec<(String, String)> = Vec::new();
    if !contains_key(order, pk) {
        assert(keys_view(out@) =~= seq![]);
        return out;
    }
    let none: Vec<(String, String)> = Vec::new();
    let mut i: usize = 0;
    while i < order.len()
        invariant
            i <= order.len(),
            none@.len() == 0,
            ov == keys_view(order@),
            ev == entries_view(entries@),
            pkv == key_view(*pk),
            ov.contains(pkv),
            keys_view(out@) == children_in(ov.take(i as int), ov, ev, pkv),
        decreases order.len() - i,
    {
        assert(ov.take(i + 1).drop_last() =~= ov.take(i as int));
        assert(ov.take(i + 1).last() == ov[i as int]);
        let ps = parents_for(entries, &none, &order[i]);
        let ghost pv = keys_view(ps@);
        let ghost base = keys_view(out@);
        let mut j: usize = 0;
        while j < ps.len()
            invariant
                i < order.len(),
                j <= ps.len(),
                pv == keys_view(ps@),
                pkv == key_view(*pk),
                ov == keys_view(order@),
                keys_view(out@) == base + copies_under(ov[i as int], pv.take(j as int), pkv),
            decreases ps.len() - j,
        {
            assert(pv.take(j + 1).drop_last() =~= pv.take(j as int));
            let sk = swap_copy(&ps[j]);
            if key_eq(&sk, pk) {
                let k = copy_key(&order[i]);
                let ghost prev = keys_view(out@);
                out.push(k);
                assert(keys_view(out@) =~= prev.push(ov[i as int]));
                assert(keys_view(out@) =~= base + copies_under(ov[i as int], pv.take(j + 1), pkv));
            } else {
                assert(copies_under(ov[i as int], pv.take(j + 1), pkv) =~= copies_under(ov[i as int], pv.take(j as int), pkv));
            }
            j = j + 1;
        }
        assert(pv.take(ps.len() as int) =~= pv);
        i = i + 1;
    }
    assert(ov.take(order.len() as int) =~= ov);
    out
}

/// The indices of the results of indicator `k`.
fn result_indices(results: &Vec<(String, String)>, k: &(String, String)) -> (r: Vec<usize>)
    ensures
        r@ == results_for(keys_view(results@), key_view(*k)),
{
    let ghost rv = keys_view(results@);
    let mut out: Vec<usize> = Vec::new();
    let mut i: usize = 0;
    while i < results.len()
        invariant
            i <= results.len(),
            rv == keys_view(results@),
            out@ == results_for(rv.take(i as int), key_view(*k)),
        decreases results.len() - i,
    {
        assert(rv.take(i + 1).drop_last() =~= rv.take(i as int));
        assert(rv.take(i + 1).last() == rv[i as int]);
        if key_eq(&results[i], k) {
            out.push(i);
            assert(out@ =~= results_for(rv.take(i + 1), key_view(*k)));
        } else {
            assert(out@ =~= results_for(rv.take(i + 1), key_view(*k)));
        }
        i = i + 1;
    }
    assert(rv.take(results.len() as int) =~= rv);
    out
}

/// A row of the results tree: an indicator header `(depth, itype, query)`, or a
/// result `(depth, result index)`.
pub enum C3Row {
    Header(usize, String, String),
    Item(usize, usize),
}

pub enum C3RowView {
    Header(usize, Seq<char>, Seq<char>),
    Item(usize, usize),
}

impl View for C3Row {
    type V = C3RowView;

    open spec fn view(&self) -> C3RowView {
        match self {
            C3Row::Header(d, t, q) => C3RowView::Header(*d, t@, q@),
            C3Row::Item(d, i) => C3RowView::Item(*d, *i),
        }
    }
}

pub open spec fn rows_view(v: Seq<C3Row>) -> Seq<C3RowView> {
    v.map_values(|r: C3Row| r@)
}

/// The depth of the rows under a row at depth `d`: two more, at most `usize::MAX`.
pub open spec fn deeper(d: usize) -> usize {
    if d <= usize::MAX - 2 {
        (d + 2) as usize
    } else {
        usize::MAX
    }
}

/// The rows of the subtree of indicator `k` at depth `depth`: its header, its results
/// one level deeper, then the subtrees of its children one level deeper. `None` when
/// the subtrees nest more than `fuel` deep, which happens only where the parent map
/// has a cycle.
pub open spec fn spec_tree(
    results: Seq<(Seq<char>, Seq<char>)>,
    order: Seq<(Seq<char>, Seq<char>)>,
    entries: Seq<((Seq<char>, Seq<char>), Seq<(Seq<char>, Seq<char>)>)>,
    k: (Seq<char>, Seq<char>),
    depth: usize,
    fuel: nat,
) -> Option<Seq<C3RowView>>
    decreases fuel, 0nat,
{
    if fuel == 0 {
        None
    } else {
        let items = results_for(results, k).map_values(|i: usize| C3RowView::Item(deeper(depth), i));
        match spec_forest(results, order, entries, children_in(order, order, entries, k), deeper(depth), (fuel - 1) as nat) {
            Some(rest) => Some(seq![C3RowView::Header(depth, k.0, k.1)] + items + rest),
            None => None,
        }
    }
}

/// The rows of the subtrees of `ks`, one after the other.
pub open spec fn spec_forest(
    results: Seq<(Seq<char>, Seq<char>)>,
    order: Seq<(Seq<char>, Seq<char>)>,
    entries: Seq<((Seq<char>, Seq<char>), Seq<(Seq<char>, Seq<char>)>)>,
    ks: Seq<(Seq<char>, Seq<char>)>,
    depth: usize,
    fuel: nat,
) -> Option<Seq<C3RowView>>
    decreases fuel, ks.len(),
{
    if ks.len() == 0 {
        Some(seq![])
    } else {
        match (spec_forest(results, order, entries, ks.drop_last(), depth, fuel), spec_tree(results, order, entries, ks.last(), depth, fuel)) {
            (Some(a), Some(b)) => Some(a + b),
            _ => None,
        }
    }
}

/// The rows of the whole tree: the subtrees of the root indicators at depth 0, with
/// as much nesting as there are indicators.
pub open spec fn spec_tree_rows(
    init: Seq<(Seq<char>, Seq<char>)>,
    results: Seq<(Seq<char>, Seq<char>)>,
    entries: Seq<((Seq<char>, Seq<char>), Seq<(Seq<char>, Seq<char>)>)>,
) -> Option<Seq<C3RowView>> {
    let order = spec_indicator_order(init, results, entries);
    spec_forest(results, order, entries, roots_in(order, order, entries), 0, order.len())
}

proof fn lemma_forest_prefix_none(
    results: Seq<(Seq<char>, Seq<char>)>,
    order: Seq<(Seq<char>, Seq<char>)>,
    entries: Seq<((Seq<char>, Seq<char>), Seq<(Seq<char>, Seq<char>)>)>,
    ks: Seq<(Seq<char>, Seq<char>)>,
    i: int,
    depth: usize,
    fuel: nat,
)
    requires
        0 <= i <= ks.len(),
        spec_forest(results, order, entries, ks.take(i), depth, fuel) is None,
    ensures
        spec_forest(results, order, entries, ks, depth, fuel) is None,
    decreases ks.len() - i,
{
    if i < ks.len() {
        assert(ks.take(i + 1).drop_last() =~= ks.take(i));
        lemma_forest_prefix_none(results, order, entries, ks, i + 1, depth, fuel);
    } else {
        assert(ks.take(i) =~= ks);
    }
}

/// Appends the rows of the subtree of `k`; false when it nests too deep.
fn build_tree(
    results: &Vec<(String, String)>,
    order: &Vec<(String, String)>,
    entries: &Vec<((String, String), Vec<(String, String)>)>,
    k: &(String, String),
    depth: usize,
    fuel: usize,
    rows: &mut Vec<C3Row>,
) -> (ok: bool)
    ensures
        ok == spec_tree(keys_view(results@), keys_view(order@), entries_view(entries@), key_view(*k), depth, fuel as nat) is Some,
        ok ==> rows_view(final(rows)@) == rows_view(old(rows)@) + spec_tree(keys_view(results@), keys_view(order@), entries_view(entries@), key_view(*k), depth, fuel as nat).unwrap(),
    decreases fuel, 0nat,
{
    if fuel == 0 {
        return false;
    }
    let ghost start = rows_view(rows@);
    let d: usize = if depth <= usize::MAX - 2 { depth + 2 } else { usize::MAX };
    rows.push(C3Row::Header(depth, k.0.clone(), k.1.clone()));
    let idx = result_indices(results, k);
    let ghost items = idx@.map_values(|i: usize| C3RowView::Item(d, i));
    let mut j: usize = 0;
    while j < idx.len()
        invariant
            j <= idx.len(),
            items == idx@.map_values(|i: usize| C3RowView::Item(d, i)),
            rows_view(rows@) == start + seq![C3RowView::Header(depth, k.0@, k.1@)] + items.take(j as int),
        decreases idx.len() - j,
    {
        let ghost prev = rows_view(rows@);
        rows.push(C3Row::Item(d, idx[j]));
        assert(rows_view(rows@) =~= prev.push(C3RowView::Item(d, idx@[j as int])));
        assert(items.take(j + 1) =~= items.take(j as int).push(items[j as int]));
        j = j + 1;
    }
    assert(items.take(idx.len() as int) =~= items);
    let kids = children_of(order, entries, k);
    let ok = build_forest(results, order, entries, &kids, d, fuel - 1, rows);
    proof {
        if ok {
            assert(rows_view(rows@) =~= start + spec_tree(keys_view(results@), keys_view(order@), entries_view(entries@), key_view(*k), depth, fuel as nat).unwrap());
        }
    }
    ok
}

/// Appends the rows of the subtrees of `ks`; false when one nests too deep.
fn build_forest(
    results: &Vec<(String, String)>,
    order: &Vec<(String, String)>,
    entries: &Vec<((String, String), Vec<(String, String)>)>,
    ks: &Vec<(String, String)>,
    depth: usize,
    fuel: usize,
    rows: &mut Vec<C3Row>,
) -> (ok: bool)
    ensures
        ok == spec_forest(keys_view(results@), keys_view(order@), entries_view(entries@), keys_view(ks@), depth, fuel as nat) is Some,
        ok ==> rows_view(final(rows)@) == rows_view(old(rows)@) + spec_forest(keys_view(results@), keys_view(order@), entries_view(entries@), keys_view(ks@), depth, fuel as nat).unwrap(),
    decreases fuel, 1nat,
{
    let ghost rv = keys_view(results@);
    let ghost ov = keys_view(order@);
    let ghost ev = entries_view(entries@);
    let ghost kv = keys_view(ks@);
    let ghost start = rows_view(rows@);
    let mut i: usize = 0;
    assert(kv.take(0) =~= seq![]);
    while i < ks.len()
        invariant
            i <= ks.len(),
            rv == keys_view(results@),
            ov == keys_view(order@),
            ev == entries_view(entries@),
            kv == keys_view(ks@),
            spec_forest(rv, ov, ev, kv.take(i as int), depth, fuel as nat) is Some,
            rows_view(rows@) == start + spec_forest(rv, ov, ev, kv.take(i as int), depth, fuel as nat).unwrap(),
        decreases ks.len() - i,
    {
        assert(kv.take(i + 1).drop_last() =~= kv.take(i as int));
        assert(kv.take(i + 1).last() == kv[i as int]);
        let ok = build_tree(results, order, entries, &ks[i], depth, fuel, rows);
        if !ok {
            proof {
                lemma_forest_prefix_none(rv, ov, ev, kv, i + 1, depth, fuel as nat);
            }
            return false;
        }
        assert(rows_view(rows@) =~= start + spec_forest(rv, ov, ev, kv.take(i + 1), depth, fuel as nat).unwrap());
        i = i + 1;
    }
    assert(kv.take(ks.len() as int) =~= kv);
    true
}

/// The rows of the Cont3xt results tree, from the indicators of the search
/// (`(itype, query)` in their order), the indicator of each result (`(itype,
/// indicator)`, by result index) and the entries of the parent map in the order they
/// are walked. `None` where the parent map holds a cycle under a root indicator,
/// which the tree cannot show.
pub fn c3_tree_rows(
    init: &Vec<(String, String)>,
    results: &Vec<(String, String)>,
    entries: &Vec<((String, String), Vec<(String, String)>)>,
) -> (r: Option<Vec<C3Row>>)
    ensures
        match r {
            Some(rows) => spec_tree_rows(keys_view(init@), keys_view(results@), entries_view(entries@)) == Some(rows_view(rows@)),
            None => spec_tree_rows(keys_view(init@), keys_view(results@), entries_view(entries@)) is None,
        },
{
    let order = indicator_order(init, results, entries);
    let roots = tree_roots_of(&order, entries);
    let mut rows: Vec<C3Row> = Vec::new();
    assert(rows_view(rows@) =~= seq![]);
    let ok = build_forest(results, &order, entries, &roots, 0, order.len(), &mut rows);
    if ok {
        assert(rows_view(rows@) =~= seq![] + spec_tree_rows(keys_view(init@), keys_view(results@), entries_view(entries@)).unwrap());
        Some(rows)
    } else {
        None
    }
}

pub open spec fn is_space() -> spec_fn(char) -> bool {
    |c: char| c == ' '
}

/// The key that a header row stands for once its label `ITYPE query` (the itype in
/// upper case) is read back: the text before the first space in lower case, and the
/// text after it.
pub open spec fn header_key(itype: Seq<char>, query: Seq<char>) -> (Seq<char>, Seq<char>) {
    let label = spec_to_uppercase(itype) + seq![' '] + query;
    let p = first_index(label, is_space());
    (spec_to_lowercase(label.subrange(0, p)), label.subrange(p + 1, label.len() as int))
}

pub open spec fn tree_item_of(r: C3RowView) -> C3TreeItemView {
    match r {
        C3RowView::Header(_, t, q) => C3TreeItemView::Indicator(header_key(t, q).0, header_key(t, q).1),
        C3RowView::Item(_, i) => C3TreeItemView::Result(i),
    }
}

pub open spec fn tree_items_view(v: Seq<C3TreeItem>) -> Seq<C3TreeItemView> {
    v.map_values(|t: C3TreeItem| t@)
}

/// The positions of the headers at depth 0.
pub open spec fn root_positions(rows: Seq<C3RowView>) -> Seq<usize>
    decreases rows.len(),
{
    if rows.len() == 0 {
        seq![]
    } else {
        root_positions(rows.drop_last()) + (match rows.last() {
            C3RowView::Header(d, _, _) => if d == 0 { seq![(rows.len() - 1) as usize] } else { seq![] },
            C3RowView::Item(_, _) => seq![],
        })
    }
}

/// The characters of `v` from `a` up to `b`.
fn chars_range(v: &Vec<char>, a: usize, b: usize) -> (r: Vec<char>)
    requires
        a <= b <= v.len(),
    ensures
        r@ == v@.subrange(a as int, b as int),
{
    let mut out: Vec<char> = Vec::new();
    let mut i: usize = a;
    while i < b
        invariant
            a <= i <= b,
            b <= v.len(),
            out@ == v@.subrange(a as int, i as int),
        decreases b - i,
    {
        out.push(v[i]);
        assert(out@ =~= v@.subrange(a as int, i + 1));
        i = i + 1;
    }
    out
}

/// The tree entry of an indicator header, read back from its label.
fn header_item(itype: &String, query: &String) -> (r: C3TreeItem)
    ensures
        r@ == C3TreeItemView::Indicator(header_key(itype@, query@).0, header_key(itype@, query@).1),
{
    let up = to_uppercase(itype.as_str());
    let mut label = chars_of(up.as_str());
    let n = label.len();
    label.push(' ');
    let q = chars_of(query.as_str());
    let mut j: usize = 0;
    while j < q.len()
        invariant
            j <= q.len(),
            label@ == spec_to_uppercase(itype@) + seq![' '] + q@.subrange(0, j as int),
        decreases q.len() - j,
    {
        label.push(q[j]);
        assert(label@ =~= spec_to_uppercase(itype@) + seq![' '] + q@.subrange(0, j + 1));
        j = j + 1;
    }
    let ghost lv = spec_to_uppercase(itype@) + seq![' '] + query@;
    assert(label@ =~= lv);
    let mut p: usize = 0;
    while p < label.len() && label[p] != ' '
        invariant
            p <= label.len(),
            label@ == lv,
            lv[n as int] == ' ',
            n < label.len(),
            p <= n,
            forall|m: int| 0 <= m < p ==> !is_space()(#[trigger] lv[m]),
        decreases label.len() - p,
    {
        p = p + 1;
    }
    proof {
        lemma_first_match_at(lv, is_space(), p as int);
    }
    let head = chars_range(&label, 0, p);
    let tail = chars_range(&label, p + 1, label.len());
    let head_s = string_from_chars(&head);
    let lower = to_lowercase(head_s.as_str());
    C3TreeItem::Indicator(lower, string_from_chars(&tail))
}

/// The selectable entries of the tree, one per row, and the positions of the root
/// indicator headers among them.
pub fn tree_order_of(rows: &Vec<C3Row>) -> (r: (Vec<C3TreeItem>, Vec<usize>))
    ensures
        tree_items_view(r.0@) == rows_view(rows@).map_values(|x: C3RowView| tree_item_of(x)),
        r.1@ == root_positions(rows_view(rows@)),
{
    let ghost rv = rows_view(rows@);
    let mut items: Vec<C3TreeItem> = Vec::new();
    let mut roots: Vec<usize> = Vec::new();
    let mut i: usize = 0;
    while i < rows.len()
        invariant
            i <= rows.len(),
            rv == rows_view(rows@),
            tree_items_view(items@) == rv.take(i as int).map_values(|x: C3RowView| tree_item_of(x)),
            roots@ == root_positions(rv.take(i as int)),
        decreases rows.len() - i,
    {
        assert(rv.take(i + 1).drop_last() =~= rv.take(i as int));
        assert(rv.take(i + 1).last() == rv[i as int]);
        let ghost prev = tree_items_view(items@);
        match &rows[i] {
            C3Row::Header(d, t, q) => {
                if *d == 0 {
                    roots.push(i);
                }
                let it = header_item(t, q);
                items.push(it);
            },
            C3Row::Item(_, idx) => {
                items.push(C3TreeItem::Result(*idx));
            },
        }
        assert(tree_items_view(items@) =~= prev.push(tree_item_of(rv[i as int])));
        assert(roots@ =~= root_positions(rv.take(i + 1)));
        assert(rv.take(i + 1).map_values(|x: C3RowView| tree_item_of(x)) =~= rv.take(i as int).map_values(|x: C3RowView| tree_item_of(x)).push(tree_item_of(rv[i as int])));
        i = i + 1;
    }
    assert(rv.take(rows.len() as int) =~= rv);
    (items, roots)
}

proof fn lemma_add_unique(acc: Seq<(Seq<char>, Seq<char>)>, ks: Seq<(Seq<char>, Seq<char>)>)
    requires
        acc.no_duplicates(),
    ensures
        add_unique(acc, ks).no_duplicates(),
        add_unique(acc, ks).len() >= acc.len(),
        add_unique(acc, ks).subrange(0, acc.len() as int) == acc,
        forall|x: (Seq<char>, Seq<char>)| add_unique(acc, ks).contains(x) <==> (acc.contains(x) || ks.contains(x)),
    decreases ks.len(),
{
    if ks.len() > 0 {
        let a = add_unique(acc, ks.drop_last());
        lemma_add_unique(acc, ks.drop_last());
        assert forall|x: (Seq<char>, Seq<char>)| ks.contains(x) <==> (ks.drop_last().contains(x) || x == ks.last()) by {
            if ks.contains(x) {
                let j = choose|j: int| 0 <= j < ks.len() && ks[j] == x;
                if j < ks.len() - 1 {
                    assert(ks.drop_last()[j] == x);
                }
            }
            if ks.drop_last().contains(x) {
                let j = choose|j: int| 0 <= j < ks.len() - 1 && ks.drop_last()[j] == x;
                assert(ks[j] == x);
            }
        }
        if !a.contains(ks.last()) {
            assert(a.push(ks.last()).subrange(0, acc.len() as int) =~= a.subrange(0, acc.len() as int));
            assert forall|x: (Seq<char>, Seq<char>)| a.push(ks.last()).contains(x) <==> (a.contains(x) || x == ks.last()) by {
                if a.push(ks.last()).contains(x) {
                    let j = choose|j: int| 0 <= j < a.len() + 1 && a.push(ks.last())[j] == x;
                    if j < a.len() {
                        assert(a[j] == x);
                    }
                }
                if a.contains(x) {
                    let j = choose|j: int| 0 <= j < a.len() && a[j] == x;
                    assert(a.push(ks.last())[j] == x);
                }
                if x == ks.last() {
                    assert(a.push(ks.last())[a.len() as int] == x);
                }
            }
        }
    }
}

/// The order of the indicators holds each indicator once: every indicator of the
/// search, of a result, or named as a parent in the parent map, and no other.
pub proof fn lemma_indicator_order_unique(
    init: Seq<(Seq<char>, Seq<char>)>,
    results: Seq<(Seq<char>, Seq<char>)>,
    entries: Seq<((Seq<char>, Seq<char>), Seq<(Seq<char>, Seq<char>)>)>,
)
    ensures
        spec_indicator_order(init, results, entries).no_duplicates(),
        forall|k: (Seq<char>, Seq<char>)| spec_indicator_order(init, results, entries).contains(k)
            <==> (init.contains(k) || results.contains(k) || parent_keys(entries).contains(k)),
{
    let e: Seq<(Seq<char>, Seq<char>)> = seq![];
    lemma_add_unique(e, init);
    lemma_add_unique(add_unique(e, init), results);
    lemma_add_unique(add_unique(add_unique(e, init), results), parent_keys(entries));
}

/// Each indicator at the top, followed by its results one level deeper.
pub open spec fn flat_rows(results: Seq<(Seq<char>, Seq<char>)>, ks: Seq<(Seq<char>, Seq<char>)>) -> Seq<C3RowView>
    decreases ks.len(),
{
    if ks.len() == 0 {
        seq![]
    } else {
        flat_rows(results, ks.drop_last()) + seq![C3RowView::Header(0, ks.last().0, ks.last().1)]
            + results_for(results, ks.last()).map_values(|i: usize| C3RowView::Item(2, i))
    }
}

proof fn lemma_no_links_roots(keys: Seq<(Seq<char>, Seq<char>)>, order: Seq<(Seq<char>, Seq<char>)>)
    ensures
        roots_in(keys, order, seq![]) == keys,
    decreases keys.len(),
{
    if keys.len() > 0 {
        lemma_no_links_roots(keys.drop_last(), order);
        assert(parents_of(seq![], keys.last()) =~= seq![]);
        assert(keys.drop_last().push(keys.last()) =~= keys);
    }
}

proof fn lemma_no_links_children(keys: Seq<(Seq<char>, Seq<char>)>, order: Seq<(Seq<char>, Seq<char>)>, pk: (Seq<char>, Seq<char>))
    ensures
        children_in(keys, order, seq![], pk) == Seq::<(Seq<char>, Seq<char>)>::empty(),
    decreases keys.len(),
{
    if keys.len() > 0 {
        lemma_no_links_children(keys.drop_last(), order, pk);
        assert(parents_of(seq![], keys.last()) =~= seq![]);
        assert(copies_under(keys.last(), seq![], pk) =~= seq![]);
    }
}

proof fn lemma_no_links_forest(
    results: Seq<(Seq<char>, Seq<char>)>,
    order: Seq<(Seq<char>, Seq<char>)>,
    ks: Seq<(Seq<char>, Seq<char>)>,
    fuel: nat,
)
    requires
        fuel >= 1,
    ensures
        spec_forest(results, order, seq![], ks, 0, fuel) == Some(flat_rows(results, ks)),
    decreases ks.len(),
{
    if ks.len() > 0 {
        lemma_no_links_forest(results, order, ks.drop_last(), fuel);
        let k = ks.last();
        lemma_no_links_children(order, order, k);
        assert(deeper(0) == 2);
        let kids = children_in(order, order, seq![], k);
        assert(spec_forest(results, order, seq![], kids, 2, (fuel - 1) as nat) == Some(Seq::<C3RowView>::empty()));
        let t = spec_tree(results, order, seq![], k, 0, fuel);
        assert(t == Some(seq![C3RowView::Header(0, k.0, k.1)] + results_for(results, k).map_values(|i: usize| C3RowView::Item(2, i)) + Seq::<C3RowView>::empty()));
        assert(t->0 =~= seq![C3RowView::Header(0, k.0, k.1)] + results_for(results, k).map_values(|i: usize| C3RowView::Item(2, i)));
    }
}

/// Without parent links the tree lists every indicator at the top, in the order of
/// the indicators, each followed by its results one level deeper.
pub proof fn lemma_tree_without_links(init: Seq<(Seq<char>, Seq<char>)>, results: Seq<(Seq<char>, Seq<char>)>)
    ensures
        spec_tree_rows(init, results, seq![]) == Some(flat_rows(results, spec_indicator_order(init, results, seq![]))),
{
    let order = spec_indicator_order(init, results, seq![]);
    lemma_no_links_roots(order, order);
    if order.len() == 0 {
        assert(flat_rows(results, order) =~= seq![]);
    } else {
        lemma_no_links_forest(results, order, order, order.len());
    }
}

/// The parent links rank the indicators: each has a rank below the number of
/// indicators, and each child ranks below its parent. Such a rank exists exactly
/// when the links hold no cycle.
pub open spec fn ranked(
    order: Seq<(Seq<char>, Seq<char>)>,
    entries: Seq<((Seq<char>, Seq<char>), Seq<(Seq<char>, Seq<char>)>)>,
    rank: spec_fn((Seq<char>, Seq<char>)) -> nat,
) -> bool {
    &&& forall|k: (Seq<char>, Seq<char>)| order.contains(k) ==> #[trigger] rank(k) < order.len()
    &&& forall|k: (Seq<char>, Seq<char>), c: (Seq<char>, Seq<char>)|
        order.contains(k) && #[trigger] children_in(order, order, entries, k).contains(c) ==> #[trigger] rank(c) < rank(k)
}

proof fn lemma_copies_are_k(k: (Seq<char>, Seq<char>), ps: Seq<(Seq<char>, Seq<char>)>, pk: (Seq<char>, Seq<char>), c: (Seq<char>, Seq<char>))
    requires
        copies_under(k, ps, pk).contains(c),
    ensures
        c == k,
    decreases ps.len(),
{
    if ps.len() > 0 {
        let a = copies_under(k, ps.drop_last(), pk);
        let b: Seq<(Seq<char>, Seq<char>)> = if swap_key(ps.last()) == pk { seq![k] } else { seq![] };
        let j = choose|j: int| 0 <= j < (a + b).len() && (a + b)[j] == c;
        if j < a.len() {
            assert(a[j] == c);
            lemma_copies_are_k(k, ps.drop_last(), pk, c);
        } else {
            assert(b[j - a.len()] == c);
        }
    }
}

proof fn lemma_children_among(
    keys: Seq<(Seq<char>, Seq<char>)>,
    order: Seq<(Seq<char>, Seq<char>)>,
    entries: Seq<((Seq<char>, Seq<char>), Seq<(Seq<char>, Seq<char>)>)>,
    pk: (Seq<char>, Seq<char>),
    c: (Seq<char>, Seq<char>),
)
    requires
        children_in(keys, order, entries, pk).contains(c),
    ensures
        keys.contains(c),
    decreases keys.len(),
{
    if keys.len() > 0 && order.contains(pk) {
        let a = children_in(keys.drop_last(), order, entries, pk);
        let b = copies_under(keys.last(), parents_of(entries, keys.last()), pk);
        let j = choose|j: int| 0 <= j < (a + b).len() && (a + b)[j] == c;
        if j < a.len() {
            assert(a[j] == c);
            lemma_children_among(keys.drop_last(), order, entries, pk, c);
            let m = choose|m: int| 0 <= m < keys.drop_last().len() && keys.drop_last()[m] == c;
            assert(keys[m] == c);
        } else {
            assert(b[j - a.len()] == c);
            lemma_copies_are_k(keys.last(), parents_of(entries, keys.last()), pk, c);
            assert(keys[keys.len() - 1] == c);
        }
    }
}

proof fn lemma_roots_among(
    keys: Seq<(Seq<char>, Seq<char>)>,
    order: Seq<(Seq<char>, Seq<char>)>,
    entries: Seq<((Seq<char>, Seq<char>), Seq<(Seq<char>, Seq<char>)>)>,
    c: (Seq<char>, Seq<char>),
)
    requires
        roots_in(keys, order, entries).contains(c),
    ensures
        keys.contains(c),
    decreases keys.len(),
{
    if keys.len() > 0 {
        let a = roots_in(keys.drop_last(), order, entries);
        if has_parent(order, entries, keys.last()) {
            lemma_roots_among(keys.drop_last(), order, entries, c);
            let m = choose|m: int| 0 <= m < keys.drop_last().len() && keys.drop_last()[m] == c;
            assert(keys[m] == c);
        } else {
            let j = choose|j: int| 0 <= j < a.push(keys.last()).len() && a.push(keys.last())[j] == c;
            if j < a.len() {
                assert(a[j] == c);
                lemma_roots_among(keys.drop_last(), order, entries, c);
                let m = choose|m: int| 0 <= m < keys.drop_last().len() && keys.drop_last()[m] == c;
                assert(keys[m] == c);
            } else {
                assert(keys[keys.len() - 1] == c);
            }
        }
    }
}

proof fn lemma_tree_shown(
    results: Seq<(Seq<char>, Seq<char>)>,
    order: Seq<(Seq<char>, Seq<char>)>,
    entries: Seq<((Seq<char>, Seq<char>), Seq<(Seq<char>, Seq<char>)>)>,
    rank: spec_fn((Seq<char>, Seq<char>)) -> nat,
    k: (Seq<char>, Seq<char>),
    depth: usize,
    fuel: nat,
)
    requires
        ranked(order, entries, rank),
        order.contains(k),
        rank(k) < fuel,
    ensures
        spec_tree(results, order, entries, k, depth, fuel) is Some,
    decreases fuel, 0nat,
{
    let kids = children_in(order, order, entries, k);
    assert forall|c: (Seq<char>, Seq<char>)| kids.contains(c) implies order.contains(c) && rank(c) < (fuel - 1) as nat by {
        lemma_children_among(order, order, entries, k, c);
    }
    lemma_forest_shown(results, order, entries, rank, kids, deeper(depth), (fuel - 1) as nat);
}

proof fn lemma_forest_shown(
    results: Seq<(Seq<char>, Seq<char>)>,
    order: Seq<(Seq<char>, Seq<char>)>,
    entries: Seq<((Seq<char>, Seq<char>), Seq<(Seq<char>, Seq<char>)>)>,
    rank: spec_fn((Seq<char>, Seq<char>)) -> nat,
    ks: Seq<(Seq<char>, Seq<char>)>,
    depth: usize,
    fuel: nat,
)
    requires
        ranked(order, entries, rank),
        forall|c: (Seq<char>, Seq<char>)| ks.contains(c) ==> order.contains(c) && rank(c) < fuel,
    ensures
        spec_forest(results, order, entries, ks, depth, fuel) is Some,
    decreases fuel, ks.len(),
{
    if ks.len() > 0 {
        assert forall|c: (Seq<char>, Seq<char>)| ks.drop_last().contains(c) implies order.contains(c) && rank(c) < fuel by {
            let m = choose|m: int| 0 <= m < ks.drop_last().len() && ks.drop_last()[m] == c;
            assert(ks[m] == c);
        }
        lemma_forest_shown(results, order, entries, rank, ks.drop_last(), depth, fuel);
        assert(ks.contains(ks.last())) by {
            assert(ks[ks.len() - 1] == ks.last());
        }
        lemma_tree_shown(results, order, entries, rank, ks.last(), depth, fuel);
    }
}

/// When the parent links hold no cycle (a rank as `ranked` says exists), the results
/// tree can be shown: `c3_tree_rows` gives its rows.
pub proof fn lemma_tree_shown_without_cycles(
    init: Seq<(Seq<char>, Seq<char>)>,
    results: Seq<(Seq<char>, Seq<char>)>,
    entries: Seq<((Seq<char>, Seq<char>), Seq<(Seq<char>, Seq<char>)>)>,
    rank: spec_fn((Seq<char>, Seq<char>)) -> nat,
)
    requires
        ranked(spec_indicator_order(init, results, entries), entries, rank),
    ensures
        spec_tree_rows(init, results, entries) is Some,
{
    let order = spec_indicator_order(init, results, entries);
    let roots = roots_in(order, order, entries);
    assert forall|c: (Seq<char>, Seq<char>)| roots.contains(c) implies order.contains(c) && rank(c) < order.len() by {
        lemma_roots_among(order, order, entries, c);
    }
    lemma_forest_shown(results, order, entries, rank, roots, 0, order.len());
}

} // verus!
