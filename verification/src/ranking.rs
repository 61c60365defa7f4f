//! Counts by path, largest first.
use crate::order::{
    comes_before, is_stable_order, keys_of, law_sorted_indices_are_in_stable_order, sorted_indices, stable_order, Ordered,
};
use crate::path_map::PathMap;
use crate::text::{
    before, lemma_precedes_irreflexive, lemma_precedes_total, lemma_precedes_transitive, owned,
    precedes,
};
use vstd::prelude::*;

verus! {

/// Whether one counted path ranks before another: the larger count first, and
/// of equal counts the earlier path.
pub open spec fn ranks_before(a: (Seq<char>, u64), b: (Seq<char>, u64)) -> bool {
    a.1 > b.1 || (a.1 == b.1 && precedes(a.0, b.0))
}

/// Whether a list holds every counted path once, in the order of rank.
pub open spec fn is_ranking(ranked: Seq<(Seq<char>, u64)>, counts: Map<Seq<char>, u64>) -> bool {
    &&& forall|i: int, j: int|
        0 <= i < j < ranked.len() ==> #[trigger] ranks_before(ranked[i], ranked[j])
    &&& forall|x: (Seq<char>, u64)| #[trigger]
        ranked.contains(x) <==> counts.contains_key(x.0) && counts[x.0] == x.1
}

/// The counted paths in the order of rank.
pub open spec fn ranking(counts: Map<Seq<char>, u64>) -> Seq<(Seq<char>, u64)> {
    choose|ranked: Seq<(Seq<char>, u64)>| is_ranking(ranked, counts)
}

/// The paths and counts of a list.
pub open spec fn counted_views(list: Seq<(String, u64)>) -> Seq<(Seq<char>, u64)> {
    list.map_values(|e: (String, u64)| (e.0@, e.1))
}

/// Only one list is in the order of rank.
pub proof fn lemma_ranking_unique(a: Seq<(Seq<char>, u64)>, b: Seq<(Seq<char>, u64)>)
    requires
        forall|i: int, j: int| 0 <= i < j < a.len() ==> #[trigger] ranks_before(a[i], a[j]),
        forall|i: int, j: int| 0 <= i < j < b.len() ==> #[trigger] ranks_before(b[i], b[j]),
        forall|x: (Seq<char>, u64)| #[trigger] a.contains(x) <==> b.contains(x),
    ensures
        a == b,
    decreases a.len(),
{
    if a.len() == 0 {
        if b.len() > 0 {
            assert(b.contains(b[0]));
            assert(a.contains(b[0]));
        }
        assert(a =~= b);
    } else {
        assert(a.contains(a[0]));
        assert(b.contains(a[0]));
        let j = choose|j: int| 0 <= j < b.len() && b[j] == a[0];
        assert(b.contains(b[0]));
        assert(a.contains(b[0]));
        let i = choose|i: int| 0 <= i < a.len() && a[i] == b[0];
        if j > 0 {
            assert(ranks_before(b[0], b[j]));
            lemma_rank_asymmetric(b[0], a[0]);
            if i > 0 {
                assert(ranks_before(a[0], a[i]));
            }
        }
        let x = a.skip(1);
        let y = b.skip(1);
        assert forall|e: (Seq<char>, u64)| #[trigger] x.contains(e) <==> y.contains(e) by {
            lemma_skip_contains(a, e);
            lemma_skip_contains(b, e);
            assert(a.contains(e) <==> b.contains(e));
        }
        assert forall|p: int, q: int| 0 <= p < q < x.len() implies #[trigger] ranks_before(
            x[p],
            x[q],
        ) by {
            assert(ranks_before(a[p + 1], a[q + 1]));
        }
        assert forall|p: int, q: int| 0 <= p < q < y.len() implies #[trigger] ranks_before(
            y[p],
            y[q],
        ) by {
            assert(ranks_before(b[p + 1], b[q + 1]));
        }
        lemma_ranking_unique(x, y);
        assert(a =~= seq![a[0]] + x);
        assert(b =~= seq![b[0]] + y);
    }
}

proof fn lemma_rank_asymmetric(a: (Seq<char>, u64), b: (Seq<char>, u64))
    ensures
        !(ranks_before(a, b) && ranks_before(b, a)),
        !ranks_before(a, a),
{
    lemma_precedes_irreflexive(a.0);
    if precedes(a.0, b.0) && precedes(b.0, a.0) {
        lemma_precedes_transitive(a.0, b.0, a.0);
    }
}

/// In a strictly ordered list the first item does not occur again.
proof fn lemma_skip_contains(a: Seq<(Seq<char>, u64)>, e: (Seq<char>, u64))
    requires
        a.len() > 0,
        forall|i: int, j: int| 0 <= i < j < a.len() ==> #[trigger] ranks_before(a[i], a[j]),
    ensures
        a.skip(1).contains(e) <==> a.contains(e) && e != a[0],
{
    if a.skip(1).contains(e) {
        let k = choose|k: int| 0 <= k < a.skip(1).len() && a.skip(1)[k] == e;
        assert(a[k + 1] == e);
        assert(ranks_before(a[0], a[k + 1]));
        lemma_rank_asymmetric(a[0], a[0]);
    }
    if a.contains(e) && e != a[0] {
        let k = choose|k: int| 0 <= k < a.len() && a[k] == e;
        assert(a.skip(1)[k - 1] == e);
    }
}

/// A counted path, ordered by rank.
pub struct Counted {
    pub path: String,
    pub count: u64,
}

impl Ordered for Counted {
    type Key = (Seq<char>, u64);

    open spec fn key(self) -> (Seq<char>, u64) {
        (self.path@, self.count)
    }

    open spec fn at_most(a: (Seq<char>, u64), b: (Seq<char>, u64)) -> bool {
        a.1 > b.1 || (a.1 == b.1 && !precedes(b.0, a.0))
    }

    proof fn lemma_total(a: (Seq<char>, u64), b: (Seq<char>, u64)) {
        if precedes(b.0, a.0) && precedes(a.0, b.0) {
            lemma_precedes_transitive(b.0, a.0, b.0);
            lemma_precedes_irreflexive(b.0);
        }
    }

    proof fn lemma_transitive(
        a: (Seq<char>, u64),
        b: (Seq<char>, u64),
        c: (Seq<char>, u64),
    ) {
        if precedes(c.0, a.0) && a.1 == c.1 {
            lemma_precedes_total(b.0, a.0);
            if precedes(a.0, b.0) {
                lemma_precedes_transitive(c.0, a.0, b.0);
            }
        }
    }

    fn is_at_most(&self, other: &Self) -> (r: bool) {
        self.count > other.count || (self.count == other.count && !before(
            other.path.as_str(),
            self.path.as_str(),
        ))
    }
}

/// A list of counted paths in the order of rank; what ranks alike stays in
/// order.
pub open spec fn ranked_list(items: Seq<(Seq<char>, u64)>) -> Seq<(Seq<char>, u64)> {
    sorted_indices::<Counted>(items).map_values(|i: usize| items[i as int])
}

/// A list of counted paths in the order of rank.
pub fn rank_list(list: &Vec<(String, u64)>) -> (r: Vec<(String, u64)>)
    ensures
        counted_views(r@) == ranked_list(counted_views(list@)),
        r@.len() == list@.len(),
        is_stable_order::<Counted>(
            counted_views(list@),
            sorted_indices::<Counted>(counted_views(list@)),
            0,
            list@.len() as int,
        ),
{
    let ghost views = counted_views(list@);
    let mut items: Vec<Counted> = Vec::new();
    let mut i: usize = 0;
    while i < list.len()
        invariant
            i <= list@.len(),
            views == counted_views(list@),
            items@.len() == i,
            forall|k: int| 0 <= k < i ==> (#[trigger] items@[k]).key() == views[k],
        decreases list@.len() - i,
    {
        items.push(Counted { path: list[i].0.clone(), count: list[i].1 });
        i += 1;
    }
    assert(keys_of(items@) =~= views);
    let order = stable_order(&items);
    let ghost f = |i: usize| views[i as int];
    let mut out: Vec<(String, u64)> = Vec::new();
    let mut j: usize = 0;
    assert(counted_views(out@) =~= order@.take(0).map_values(f));
    while j < order.len()
        invariant
            j <= order@.len(),
            views == counted_views(list@),
            f == (|i: usize| views[i as int]),
            forall|k: int| 0 <= k < order@.len() ==> #[trigger] order@[k] < list@.len(),
            counted_views(out@) == order@.take(j as int).map_values(f),
            out@.len() == j,
        decreases order@.len() - j,
    {
        let at: usize = order[j];
        let ghost before = counted_views(out@);
        out.push((list[at].0.clone(), list[at].1));
        proof {
            assert(counted_views(out@) =~= before.push(views[at as int]));
            assert(order@.take(j + 1).map_values(f) =~= order@.take(j as int).map_values(f).push(
                views[at as int],
            ));
        }
        j += 1;
    }
    assert(order@.take(order@.len() as int) =~= order@);
    out
}

/// The counted paths in the order of rank.
pub fn rank(counts: &PathMap<u64>) -> (r: Vec<(String, u64)>)
    requires
        counts.wf(),
    ensures
        counted_views(r@) == ranking(counts@),
        is_ranking(ranking(counts@), counts@),
        r@.len() == counts.keys().len(),
{
    let total: usize = counts.len();
    let ghost keys = counts.keys();
    let mut list: Vec<(String, u64)> = Vec::new();
    let mut i: usize = 0;
    while i < total
        invariant
            i <= total,
            total == keys.len(),
            keys == counts.keys(),
            counts.wf(),
            list@.len() == i,
            forall|k: int|
                0 <= k < i ==> (#[trigger] list@[k]).0@ == keys[k] && list@[k].1
                    == counts@[keys[k]],
        decreases total - i,
    {
        list.push((owned(counts.key_at(i)), *counts.value_at(i)));
        i += 1;
    }
    let out = rank_list(&list);
    proof {
        counts.lemma_keys();
        let items = counted_views(list@);
        let order = sorted_indices::<Counted>(items);
        let views = counted_views(out@);
        assert forall|k: int| 0 <= k < items.len() implies (#[trigger] items[k]).0 == keys[k]
            && items[k].1 == counts@[keys[k]] by {
            assert(items[k] == (list@[k].0@, list@[k].1));
        }
        assert forall|a: int, b: int| 0 <= a < b < views.len() implies #[trigger] ranks_before(
            views[a],
            views[b],
        ) by {
            let x = order[a] as int;
            let y = order[b] as int;
            assert(comes_before::<Counted>(items, x, y));
            assert(views[a] == items[x] && views[b] == items[y]);
            if items[x].1 == items[y].1 {
                lemma_precedes_total(keys[x], keys[y]);
                if Counted::at_most(items[y], items[x]) {
                    assert(x < y);
                    assert(precedes(keys[x], keys[y]));
                }
            }
        }
        assert forall|x: (Seq<char>, u64)| #[trigger]
            views.contains(x) <==> counts@.contains_key(x.0) && counts@[x.0] == x.1 by {
            if views.contains(x) {
                let a = choose|a: int| 0 <= a < views.len() && views[a] == x;
                let k = order[a] as int;
                assert(views[a] == items[k]);
                assert(counts@.contains_key(keys[k]));
            }
            if counts@.contains_key(x.0) && counts@[x.0] == x.1 {
                assert(keys.contains(x.0));
                let k = choose|k: int| 0 <= k < keys.len() && keys[k] == x.0;
                assert(order.contains(k as usize));
                let a = choose|a: int| 0 <= a < order.len() && order[a] == k as usize;
                assert(items[k].0 == keys[k]);
                assert(views[a] == x);
            }
        }
        assert(is_ranking(views, counts@));
        let r = ranking(counts@);
        assert(is_ranking(r, counts@));
        assert forall|x: (Seq<char>, u64)| #[trigger] views.contains(x) <==> r.contains(x) by {}
        lemma_ranking_unique(views, r);
    }
    out
}

/// Ranking a list keeps every item, puts more before less, and what counts
/// alike in the order of the paths.
pub proof fn law_ranked_lists_go_from_most_to_least(
    items: Seq<(Seq<char>, u64)>,
    item: (Seq<char>, u64),
    i: int,
    j: int,
)
    requires
        items.len() <= usize::MAX,
        0 <= i < j < items.len(),
    ensures
        ({
            let ranked = ranked_list(items);
            &&& ranked.len() == items.len()
            &&& ranked.contains(item) <==> items.contains(item)
            &&& ranked[i].1 >= ranked[j].1
            &&& ranked[i].1 == ranked[j].1 ==> !precedes(ranked[j].0, ranked[i].0)
        }),
{
    law_sorted_indices_are_in_stable_order::<Counted>(items);
    let order = sorted_indices::<Counted>(items);
    let ranked = ranked_list(items);
    assert(comes_before::<Counted>(items, order[i] as int, order[j] as int));
    if ranked.contains(item) {
        let a = choose|a: int| 0 <= a < ranked.len() && ranked[a] == item;
        assert(items[order[a] as int] == item);
    }
    if items.contains(item) {
        let x = choose|x: int| 0 <= x < items.len() && items[x] == item;
        assert(order.contains(x as usize));
        let a = choose|a: int| 0 <= a < order.len() && order[a] == x as usize;
        assert(ranked[a] == item);
    }
}

/// Every finite map of counts has a ranking: its entries, each once, more before
/// less, and what counts alike in the order of the paths.
pub proof fn law_counts_are_ranked(counts: Map<Seq<char>, u64>)
    requires
        counts.dom().finite(),
        counts.dom().len() <= usize::MAX,
    ensures
        forall|x: (Seq<char>, u64)| #[trigger]
            ranking(counts).contains(x) <==> counts.contains_key(x.0) && counts[x.0] == x.1,
        forall|i: int, j: int|
            0 <= i < j < ranking(counts).len() ==> (#[trigger] ranking(counts)[i]).1 >= (
            #[trigger] ranking(counts)[j]).1,
        forall|i: int, j: int|
            0 <= i < j < ranking(counts).len() && ranking(counts)[i].1 == ranking(counts)[j].1
                ==> precedes((#[trigger] ranking(counts)[i]).0, (#[trigger] ranking(counts)[j]).0),
{
    let keys = counts.dom().to_seq();
    lemma_to_seq_has_every_member(counts.dom());
    let items = keys.map_values(|k: Seq<char>| (k, counts[k]));
    law_sorted_indices_are_in_stable_order::<Counted>(items);
    let order = sorted_indices::<Counted>(items);
    let views = ranked_list(items);
    assert forall|a: int, b: int| 0 <= a < b < views.len() implies #[trigger] ranks_before(
        views[a],
        views[b],
    ) by {
        let x = order[a] as int;
        let y = order[b] as int;
        assert(comes_before::<Counted>(items, x, y));
        if items[x].1 == items[y].1 {
            lemma_precedes_total(keys[x], keys[y]);
            if Counted::at_most(items[y], items[x]) {
                assert(x < y);
                assert(keys[x] != keys[y]);
            }
        }
    }
    assert forall|x: (Seq<char>, u64)| #[trigger]
        views.contains(x) <==> counts.contains_key(x.0) && counts[x.0] == x.1 by {
        if views.contains(x) {
            let a = choose|a: int| 0 <= a < views.len() && views[a] == x;
            let k = order[a] as int;
            assert(views[a] == items[k]);
            assert(keys.contains(keys[k]));
        }
        if counts.contains_key(x.0) && counts[x.0] == x.1 {
            assert(keys.contains(x.0));
            let k = choose|k: int| 0 <= k < keys.len() && keys[k] == x.0;
            assert(order.contains(k as usize));
            let a = choose|a: int| 0 <= a < order.len() && order[a] == k as usize;
            assert(views[a] == x);
        }
    }
    assert(is_ranking(views, counts));
    let r = ranking(counts);
    assert(is_ranking(r, counts));
    assert forall|i: int, j: int| 0 <= i < j < r.len() implies (#[trigger] r[i]).1 >= (
    #[trigger] r[j]).1 && (r[i].1 == r[j].1 ==> precedes(r[i].0, r[j].0)) by {
        assert(ranks_before(r[i], r[j]));
    }
}

proof fn lemma_to_seq_has_every_member(s: Set<Seq<char>>)
    requires
        s.finite(),
    ensures
        s.to_seq().no_duplicates(),
        s.to_seq().len() == s.len(),
        forall|x: Seq<char>| #[trigger] s.to_seq().contains(x) <==> s.contains(x),
    decreases s.len(),
{
    if s.len() > 0 {
        let x = s.choose();
        let rest = s.remove(x);
        lemma_to_seq_has_every_member(rest);
        let all = s.to_seq();
        assert(all == Seq::<Seq<char>>::empty().push(x) + rest.to_seq());
        assert forall|y: Seq<char>| #[trigger] all.contains(y) <==> s.contains(y) by {
            if s.contains(y) && y != x {
                assert(rest.to_seq().contains(y));
                let k = choose|k: int| 0 <= k < rest.to_seq().len() && rest.to_seq()[k] == y;
                assert(all[k + 1] == y);
            }
            if y == x {
                assert(all[0] == x);
            }
            if all.contains(y) {
                let k = choose|k: int| 0 <= k < all.len() && all[k] == y;
                if k > 0 {
                    assert(rest.to_seq()[k - 1] == y);
                    assert(rest.to_seq().contains(y));
                }
            }
        }
        assert forall|i: int, j: int| 0 <= i < all.len() && 0 <= j < all.len() && i != j implies
            all[i] != all[j] by {
            if i > 0 {
                assert(rest.to_seq().contains(rest.to_seq()[i - 1]));
            }
            if j > 0 {
                assert(rest.to_seq().contains(rest.to_seq()[j - 1]));
            }
        }
    }
}

} // verus!
