//! What filtered lists hold.
use vstd::prelude::*;

verus! {

/// A value is in a filtered and mapped list where an item is mapped to it.
pub proof fn lemma_filter_map_contains<A, B>(s: Seq<A>, f: spec_fn(A) -> Option<B>, y: B)
    ensures
        s.filter_map(f).contains(y) <==> exists|i: int| 0 <= i < s.len() && f(#[trigger] s[i]) == Some(y),
    decreases s.len(),
{
    if s.len() > 0 {
        let front = s.drop_last();
        lemma_filter_map_contains(front, f, y);
        let all = s.filter_map(f);
        let before = front.filter_map(f);
        if all.contains(y) {
            let k = choose|k: int| 0 <= k < all.len() && all[k] == y;
            if k < before.len() {
                assert(before[k] == y);
                let i = choose|i: int| 0 <= i < front.len() && f(#[trigger] front[i]) == Some(y);
                assert(f(s[i]) == Some(y));
            } else {
                assert(f(s[s.len() - 1]) == Some(y));
            }
        }
        if exists|i: int| 0 <= i < s.len() && f(#[trigger] s[i]) == Some(y) {
            let i = choose|i: int| 0 <= i < s.len() && f(#[trigger] s[i]) == Some(y);
            if i < front.len() {
                assert(f(front[i]) == Some(y));
                let k = choose|k: int| 0 <= k < before.len() && before[k] == y;
                assert(all[k] == y);
            } else {
                assert(all[all.len() - 1] == y);
            }
        }
    } else {
        assert(!s.filter_map(f).contains(y));
    }
}

/// A filtered list is no longer than the list.
pub proof fn lemma_filter_map_len<A, B>(s: Seq<A>, f: spec_fn(A) -> Option<B>)
    ensures
        s.filter_map(f).len() <= s.len(),
    decreases s.len(),
{
    if s.len() > 0 {
        lemma_filter_map_len(s.drop_last(), f);
    }
}

/// A value is in a filtered list where it is in the list and passes.
pub proof fn lemma_filter_contains<A>(s: Seq<A>, p: spec_fn(A) -> bool, y: A)
    ensures
        s.filter(p).contains(y) <==> s.contains(y) && p(y),
    decreases s.len(),
{
    reveal(Seq::filter);
    if s.len() > 0 {
        let front = s.drop_last();
        lemma_filter_contains(front, p, y);
        let all = s.filter(p);
        let before = front.filter(p);
        if all.contains(y) {
            let k = choose|k: int| 0 <= k < all.len() && all[k] == y;
            if k < before.len() {
                assert(before[k] == y);
                let i = choose|i: int| 0 <= i < front.len() && front[i] == y;
                assert(s[i] == y);
            } else {
                assert(s[s.len() - 1] == y);
            }
        }
        if s.contains(y) && p(y) {
            let i = choose|i: int| 0 <= i < s.len() && s[i] == y;
            if i < front.len() {
                assert(front[i] == y);
                let k = choose|k: int| 0 <= k < before.len() && before[k] == y;
                assert(all[k] == y);
            } else {
                assert(all[all.len() - 1] == y);
            }
        }
    }
}

/// A filtered and mapped list starts with what comes of its first item.
pub proof fn lemma_filter_map_first<A, B>(first: A, rest: Seq<A>, f: spec_fn(A) -> Option<B>)
    ensures
        (seq![first] + rest).filter_map(f) == (match f(first) {
            Some(b) => seq![b] + rest.filter_map(f),
            None => rest.filter_map(f),
        }),
    decreases rest.len(),
{
    reveal_with_fuel(Seq::filter_map, 2);
    let all = seq![first] + rest;
    if rest.len() == 0 {
        assert(all =~= seq![first]);
        assert(all.drop_last() =~= Seq::<A>::empty());
        if let Some(b) = f(first) {
            assert(all.filter_map(f) =~= seq![b] + rest.filter_map(f));
        } else {
            assert(all.filter_map(f) =~= rest.filter_map(f));
        }
    } else {
        lemma_filter_map_first(first, rest.drop_last(), f);
        assert(all.drop_last() =~= seq![first] + rest.drop_last());
        assert(all.last() == rest.last());
        if let Some(b) = f(first) {
            assert(all.filter_map(f) =~= seq![b] + rest.filter_map(f));
        }
    }
}

} // verus!
