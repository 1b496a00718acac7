//! Searching and stable sorting over sequences.
use vstd::prelude::*;
use crate::text::{seq_lt, string_lt};

verus! {

/// The first element that satisfies `p`.
pub open spec fn first_match<T>(s: Seq<T>, p: spec_fn(T) -> bool) -> Option<T>
    decreases s.len(),
{
    if s.len() == 0 {
        None
    } else if p(s[0]) {
        Some(s[0])
    } else {
        first_match(s.drop_first(), p)
    }
}

/// Index of the first element that satisfies `p`, or the length when none does.
pub open spec fn first_index<T>(s: Seq<T>, p: spec_fn(T) -> bool) -> int
    decreases s.len(),
{
    if s.len() == 0 {
        0
    } else if p(s[0]) {
        0
    } else {
        1 + first_index(s.drop_first(), p)
    }
}

pub proof fn lemma_first_match_at<T>(s: Seq<T>, p: spec_fn(T) -> bool, i: int)
    requires
        0 <= i < s.len(),
        p(s[i]),
        forall|k: int| 0 <= k < i ==> !p(#[trigger] s[k]),
    ensures
        first_match(s, p) == Some(s[i]),
        first_index(s, p) == i,
    decreases i,
{
    if i > 0 {
        assert forall|k: int| 0 <= k < i - 1 implies !p(#[trigger] s.drop_first()[k]) by {
            assert(s.drop_first()[k] == s[k + 1]);
        }
        lemma_first_match_at(s.drop_first(), p, i - 1);
    }
}

pub proof fn lemma_first_match_none<T>(s: Seq<T>, p: spec_fn(T) -> bool)
    requires
        forall|k: int| 0 <= k < s.len() ==> !p(#[trigger] s[k]),
    ensures
        first_match(s, p) is None,
        first_index(s, p) == s.len(),
    decreases s.len(),
{
    if s.len() > 0 {
        assert forall|k: int| 0 <= k < s.len() - 1 implies !p(#[trigger] s.drop_first()[k]) by {
            assert(s.drop_first()[k] == s[k + 1]);
        }
        lemma_first_match_none(s.drop_first(), p);
    }
}

pub proof fn lemma_first_index_bounds<T>(s: Seq<T>, p: spec_fn(T) -> bool)
    ensures
        0 <= first_index(s, p) <= s.len(),
        forall|k: int| 0 <= k < first_index(s, p) ==> !p(#[trigger] s[k]),
        first_index(s, p) < s.len() ==> p(s[first_index(s, p)]),
        first_index(s, p) < s.len() <==> first_match(s, p) is Some,
        first_index(s, p) < s.len() ==> first_match(s, p) == Some(s[first_index(s, p)]),
    decreases s.len(),
{
    if s.len() > 0 && !p(s[0]) {
        lemma_first_index_bounds(s.drop_first(), p);
        assert forall|k: int| 0 <= k < first_index(s, p) implies !p(#[trigger] s[k]) by {
            if k > 0 {
                assert(s[k] == s.drop_first()[k - 1]);
            }
        }
    }
}

/// Stable insertion of `x` into `s`: before the first element that `x` must precede.
pub open spec fn insert_before_first(s: Seq<int>, x: int, before: spec_fn(int, int) -> bool) -> Seq<int> {
    s.insert(first_index(s, |y: int| before(x, y)), x)
}

/// The indices `0..n` in the order of a stable sort under the strict order `before`:
/// the order of inserting each index in turn before the first index it must precede.
pub open spec fn stable_order(n: nat, before: spec_fn(int, int) -> bool) -> Seq<int>
    decreases n,
{
    if n == 0 {
        seq![]
    } else {
        insert_before_first(stable_order((n - 1) as nat, before), n - 1, before)
    }
}

/// Strict order on string keys, ascending or descending.
pub open spec fn text_before(keys: Seq<Seq<char>>, desc: bool) -> spec_fn(int, int) -> bool {
    |i: int, j: int| if desc { seq_lt(keys[j], keys[i]) } else { seq_lt(keys[i], keys[j]) }
}

/// Strict order on number keys, ascending or descending.
pub open spec fn number_before(keys: Seq<u64>, desc: bool) -> spec_fn(int, int) -> bool {
    |i: int, j: int| if desc { keys[j] < keys[i] } else { keys[i] < keys[j] }
}

/// The positions of a stable sort of string keys.
pub fn stable_order_text(keys: &Vec<String>, desc: bool) -> (order: Vec<usize>)
    ensures
        order@.map_values(|i: usize| i as int) == stable_order(keys@.len(), text_before(keys@.map_values(|k: String| k@), desc)),
{
    let ghost kv = keys@.map_values(|k: String| k@);
    let ghost before = text_before(kv, desc);
    let mut order: Vec<usize> = Vec::new();
    let mut i: usize = 0;
    while i < keys.len()
        invariant
            i <= keys@.len(),
            kv == keys@.map_values(|k: String| k@),
            before == text_before(kv, desc),
            order@.map_values(|x: usize| x as int) == stable_order(i as nat, before),
            forall|k: int| 0 <= k < order@.len() ==> order@[k] < i,
            order@.len() == i,
        decreases keys.len() - i,
    {
        let ghost ov = order@.map_values(|x: usize| x as int);
        let ghost p = |y: int| before(i as int, y);
        let mut j: usize = 0;
        while j < order.len()
            invariant
                j <= order@.len(),
                i < keys@.len(),
                kv == keys@.map_values(|k: String| k@),
                before == text_before(kv, desc),
                p == (|y: int| before(i as int, y)),
                ov == order@.map_values(|x: usize| x as int),
                forall|k: int| 0 <= k < order@.len() ==> order@[k] < i,
                forall|k: int| 0 <= k < j ==> !p(#[trigger] ov[k]),
            ensures
                j <= order@.len(),
                forall|k: int| 0 <= k < j ==> !p(#[trigger] ov[k]),
                j < order@.len() ==> p(ov[j as int]),
            decreases order.len() - j,
        {
            let o = order[j];
            let goes_first = if desc { string_lt(&keys[o], &keys[i]) } else { string_lt(&keys[i], &keys[o]) };
            assert(goes_first == p(ov[j as int]));
            if goes_first {
                break;
            }
            j = j + 1;
        }
        proof {
            if j < order@.len() {
                lemma_first_match_at(ov, p, j as int);
            } else {
                lemma_first_match_none(ov, p);
            }
            assert(first_index(ov, p) == j);
        }
        order.insert(j, i);
        proof {
            assert(order@.map_values(|x: usize| x as int) =~= ov.insert(j as int, i as int));
            assert(stable_order((i + 1) as nat, before) == insert_before_first(stable_order(i as nat, before), i as int, before));
            assert((|y: int| before(i as int, y)) == p);
        }
        i = i + 1;
    }
    order
}

/// The positions of a stable sort of number keys.
pub fn stable_order_number(keys: &Vec<u64>, desc: bool) -> (order: Vec<usize>)
    ensures
        order@.map_values(|i: usize| i as int) == stable_order(keys@.len(), number_before(keys@, desc)),
{
    let ghost before = number_before(keys@, desc);
    let mut order: Vec<usize> = Vec::new();
    let mut i: usize = 0;
    while i < keys.len()
        invariant
            i <= keys@.len(),
            before == number_before(keys@, desc),
            order@.map_values(|x: usize| x as int) == stable_order(i as nat, before),
            forall|k: int| 0 <= k < order@.len() ==> order@[k] < i,
            order@.len() == i,
        decreases keys.len() - i,
    {
        let ghost ov = order@.map_values(|x: usize| x as int);
        let ghost p = |y: int| before(i as int, y);
        let mut j: usize = 0;
        while j < order.len()
            invariant
                j <= order@.len(),
                i < keys@.len(),
                before == number_before(keys@, desc),
                p == (|y: int| before(i as int, y)),
                ov == order@.map_values(|x: usize| x as int),
                forall|k: int| 0 <= k < order@.len() ==> order@[k] < i,
                forall|k: int| 0 <= k < j ==> !p(#[trigger] ov[k]),
            ensures
                j <= order@.len(),
                forall|k: int| 0 <= k < j ==> !p(#[trigger] ov[k]),
                j < order@.len() ==> p(ov[j as int]),
            decreases order.len() - j,
        {
            let o = order[j];
            let goes_first = if desc { keys[o] < keys[i] } else { keys[i] < keys[o] };
            assert(goes_first == p(ov[j as int]));
            if goes_first {
                break;
            }
            j = j + 1;
        }
        proof {
            if j < order@.len() {
                lemma_first_match_at(ov, p, j as int);
            } else {
                lemma_first_match_none(ov, p);
            }
        }
        order.insert(j, i);
        proof {
            assert(order@.map_values(|x: usize| x as int) =~= ov.insert(j as int, i as int));
        }
        i = i + 1;
    }
    order
}

/// A stable order of `0..n` holds each index exactly once.
pub proof fn lemma_stable_order_permutation(n: nat, before: spec_fn(int, int) -> bool)
    ensures
        stable_order(n, before).len() == n,
        forall|k: int| 0 <= k < n ==> 0 <= #[trigger] stable_order(n, before)[k] < n,
        forall|a: int, b: int| 0 <= a < b < n ==> stable_order(n, before)[a] != stable_order(n, before)[b],
        forall|x: int| 0 <= x < n ==> stable_order(n, before).contains(x),
    decreases n,
{
    if n > 0 {
        let m = (n - 1) as nat;
        lemma_stable_order_permutation(m, before);
        let prev = stable_order(m, before);
        let p = |y: int| before(m as int, y);
        lemma_first_index_bounds(prev, p);
        let j = first_index(prev, p);
        let s = stable_order(n, before);
        assert(s == prev.insert(j, m as int));
        assert forall|k: int| 0 <= k < n implies 0 <= #[trigger] s[k] < n by {
            if k < j {
                assert(s[k] == prev[k]);
            } else if k > j {
                assert(s[k] == prev[k - 1]);
            }
        }
        assert forall|a: int, b: int| 0 <= a < b < n implies s[a] != s[b] by {
            if a < j && b < j {
                assert(s[a] == prev[a] && s[b] == prev[b]);
            } else if a < j && b == j {
                assert(s[a] == prev[a]);
            } else if a < j && b > j {
                assert(s[a] == prev[a] && s[b] == prev[b - 1]);
            } else if a == j {
                assert(s[b] == prev[b - 1]);
            } else {
                assert(s[a] == prev[a - 1] && s[b] == prev[b - 1]);
            }
        }
        assert forall|x: int| 0 <= x < n implies s.contains(x) by {
            if x == m {
                assert(s[j] == x);
            } else {
                assert(prev.contains(x));
                let k = choose|k: int| 0 <= k < prev.len() && prev[k] == x;
                if k < j {
                    assert(s[k] == x);
                } else {
                    assert(s[k + 1] == x);
                }
            }
        }
    }
}

/// No later index of `s` comes strictly before an earlier one.
pub open spec fn sorted_by(s: Seq<int>, before: spec_fn(int, int) -> bool) -> bool {
    forall|a: int, b: int| 0 <= a < b < s.len() ==> !before(#[trigger] s[b], #[trigger] s[a])
}

/// `before` is irreflexive and transitive on `0..n`.
pub open spec fn strict_order_on(n: nat, before: spec_fn(int, int) -> bool) -> bool {
    &&& forall|i: int| 0 <= i < n ==> !#[trigger] before(i, i)
    &&& forall|i: int, j: int, k: int|
        0 <= i < n && 0 <= j < n && 0 <= k < n && #[trigger] before(i, j) && #[trigger] before(j, k) ==> before(i, k)
}

/// A stable order under a strict order is sorted: no index comes after one that it
/// must precede.
pub proof fn lemma_stable_order_sorted(n: nat, before: spec_fn(int, int) -> bool)
    requires
        strict_order_on(n, before),
    ensures
        sorted_by(stable_order(n, before), before),
    decreases n,
{
    if n > 0 {
        let m = (n - 1) as nat;
        assert(strict_order_on(m, before));
        lemma_stable_order_sorted(m, before);
        lemma_stable_order_permutation(m, before);
        let prev = stable_order(m, before);
        let p = |y: int| before(m as int, y);
        lemma_first_index_bounds(prev, p);
        let j = first_index(prev, p);
        let s = stable_order(n, before);
        assert(s == prev.insert(j, m as int));
        assert forall|a: int, b: int| 0 <= a < b < s.len() implies !before(#[trigger] s[b], #[trigger] s[a]) by {
            if a < j && b < j {
                assert(s[a] == prev[a] && s[b] == prev[b]);
            } else if a < j && b == j {
                assert(s[a] == prev[a]);
                assert(!p(prev[a]));
            } else if a < j && b > j {
                assert(s[a] == prev[a] && s[b] == prev[b - 1]);
            } else if a == j {
                assert(s[b] == prev[b - 1]);
                assert(s[a] == m);
                if before(prev[b - 1], m as int) {
                    assert(p(prev[j]));
                    assert(before(prev[b - 1], prev[j]));
                    if b - 1 == j {
                        assert(before(prev[j], prev[j]));
                    }
                }
            } else {
                assert(s[a] == prev[a - 1] && s[b] == prev[b - 1]);
            }
        }
    }
}

pub proof fn lemma_text_before_strict(keys: Seq<Seq<char>>, desc: bool)
    requires
        keys.len() > 0,
    ensures
        strict_order_on(keys.len(), text_before(keys, desc)),
{
    let before = text_before(keys, desc);
    assert forall|i: int| 0 <= i < keys.len() implies !#[trigger] before(i, i) by {
        crate::text::lemma_seq_lt_irreflexive(keys[i]);
    }
    assert forall|i: int, j: int, k: int|
        0 <= i < keys.len() && 0 <= j < keys.len() && 0 <= k < keys.len() && #[trigger] before(i, j) && #[trigger] before(j, k)
        implies before(i, k) by {
        if desc {
            crate::text::lemma_seq_lt_transitive(keys[k], keys[j], keys[i]);
        } else {
            crate::text::lemma_seq_lt_transitive(keys[i], keys[j], keys[k]);
        }
    }
}

pub proof fn lemma_number_before_strict(keys: Seq<u64>, desc: bool)
    ensures
        strict_order_on(keys.len(), number_before(keys, desc)),
{
}

/// Reordering a sequence by a stable order keeps each element as many times as before.
pub proof fn lemma_stable_order_multiset<T>(rows: Seq<T>, before: spec_fn(int, int) -> bool)
    ensures
        stable_order(rows.len(), before).map_values(|i: int| rows[i]).to_multiset() == rows.to_multiset(),
    decreases rows.len(),
{
    broadcast use vstd::seq_lib::to_multiset_build, vstd::seq_lib::to_multiset_insert;
    let n = rows.len();
    if n == 0 {
        assert(stable_order(0, before).map_values(|i: int| rows[i]) =~= rows);
    } else {
        let m = (n - 1) as nat;
        let small = rows.take(m as int);
        lemma_stable_order_multiset(small, before);
        lemma_stable_order_permutation(m, before);
        let prev = stable_order(m, before);
        let p = |y: int| before(m as int, y);
        lemma_first_index_bounds(prev, p);
        let j = first_index(prev, p);
        assert(stable_order(n, before) == prev.insert(j, m as int));
        assert(prev.map_values(|i: int| rows[i]) =~= prev.map_values(|i: int| small[i]));
        assert(prev.insert(j, m as int).map_values(|i: int| rows[i]) =~= prev.map_values(|i: int| rows[i]).insert(j, rows[m as int]));
        assert(rows =~= small.push(rows[m as int]));
    }
}

} // verus!
