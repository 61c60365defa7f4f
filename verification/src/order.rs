//! Stable sorting.
use vstd::prelude::*;

verus! {

/// Values that are ordered by a key, of which there is a total preorder.
pub trait Ordered: Sized {
    /// What values are ordered by.
    type Key;

    /// What a value is ordered by.
    spec fn key(self) -> Self::Key;

    /// Whether a value with the key `a` may stand before one with the key `b`.
    spec fn at_most(a: Self::Key, b: Self::Key) -> bool;

    /// Any two keys can be ordered.
    proof fn lemma_total(a: Self::Key, b: Self::Key)
        ensures
            Self::at_most(a, b) || Self::at_most(b, a),
    ;

    /// The order is transitive.
    proof fn lemma_transitive(a: Self::Key, b: Self::Key, c: Self::Key)
        requires
            Self::at_most(a, b),
            Self::at_most(b, c),
        ensures
            Self::at_most(a, c),
    ;

    /// Whether `self` may stand before `other`.
    fn is_at_most(&self, other: &Self) -> (r: bool)
        ensures
            r == Self::at_most(self.key(), other.key()),
    ;
}

/// The keys of a list.
pub open spec fn keys_of<T: Ordered>(items: Seq<T>) -> Seq<T::Key> {
    items.map_values(|x: T| x.key())
}

/// Whether the item at `x` comes before the one at `y` in the stable order:
/// the smaller first, and of two equal ones the one that stood first.
pub open spec fn comes_before<T: Ordered>(keys: Seq<T::Key>, x: int, y: int) -> bool {
    T::at_most(keys[x], keys[y]) && (T::at_most(keys[y], keys[x]) ==> x < y)
}

/// Whether `order` lists the indices from `low` to `high` in the stable order
/// of their items, each once.
pub open spec fn is_stable_order<T: Ordered>(
    keys: Seq<T::Key>,
    order: Seq<usize>,
    low: int,
    high: int,
) -> bool {
    &&& order.len() == high - low
    &&& forall|i: int| 0 <= i < order.len() ==> low <= #[trigger] order[i] < high
    &&& forall|k: int| low <= k < high ==> order.contains(#[trigger] (k as usize))
    &&& forall|i: int, j: int|
        0 <= i < j < order.len() ==> #[trigger] comes_before::<T>(keys, order[i] as int, order[j] as int)
}

proof fn lemma_before_transitive<T: Ordered>(keys: Seq<T::Key>, x: int, y: int, z: int)
    requires
        comes_before::<T>(keys, x, y),
        comes_before::<T>(keys, y, z),
    ensures
        comes_before::<T>(keys, x, z),
{
    T::lemma_transitive(keys[x], keys[y], keys[z]);
    if T::at_most(keys[z], keys[x]) {
        T::lemma_transitive(keys[z], keys[x], keys[y]);
        T::lemma_transitive(keys[y], keys[z], keys[x]);
    }
}

/// Merges two stable orders of adjacent ranges.
fn merge<T: Ordered>(
    items: &Vec<T>,
    left: Vec<usize>,
    right: Vec<usize>,
    Ghost(low): Ghost<int>,
    Ghost(middle): Ghost<int>,
    Ghost(high): Ghost<int>,
) -> (r: Vec<usize>)
    requires
        0 <= low <= middle <= high <= items@.len(),
        is_stable_order::<T>(keys_of(items@), left@, low, middle),
        is_stable_order::<T>(keys_of(items@), right@, middle, high),
    ensures
        is_stable_order::<T>(keys_of(items@), r@, low, high),
{
    let ghost keys = keys_of(items@);
    let mut out: Vec<usize> = Vec::new();
    let mut i: usize = 0;
    let mut j: usize = 0;
    let m: usize = left.len();
    let n: usize = right.len();
    while i < m || j < n
        invariant
            keys == keys_of(items@),
            0 <= low <= middle <= high <= items@.len(),
            is_stable_order::<T>(keys_of(items@), left@, low, middle),
            is_stable_order::<T>(keys_of(items@), right@, middle, high),
            m == left@.len(),
            n == right@.len(),
            i <= m,
            j <= n,
            out@.len() == i + j,
            forall|k: int| 0 <= k < out@.len() ==> low <= #[trigger] out@[k] < high,
            forall|k: int| 0 <= k < i ==> out@.contains(#[trigger] left@[k]),
            forall|k: int| 0 <= k < j ==> out@.contains(#[trigger] right@[k]),
            forall|a: int, b: int|
                0 <= a < b < out@.len() ==> #[trigger] comes_before::<T>(
                    keys,
                    out@[a] as int,
                    out@[b] as int,
                ),
            forall|a: int, b: int|
                0 <= a < out@.len() && i <= b < m ==> #[trigger] comes_before::<T>(
                    keys,
                    out@[a] as int,
                    left@[b] as int,
                ),
            forall|a: int, b: int|
                0 <= a < out@.len() && j <= b < n ==> #[trigger] comes_before::<T>(
                    keys,
                    out@[a] as int,
                    right@[b] as int,
                ),
        decreases m - i + n - j,
    {
        let ghost before = out@;
        let from_left = if i >= m {
            false
        } else if j >= n {
            true
        } else {
            items[left[i]].is_at_most(&items[right[j]])
        };
        proof {
            if i < m && j < n {
                let x = left@[i as int] as int;
                let y = right@[j as int] as int;
                T::lemma_total(keys[x], keys[y]);
                if from_left {
                    assert(comes_before::<T>(keys, x, y));
                    assert forall|b: int| j <= b < n implies #[trigger] comes_before::<T>(
                        keys,
                        x,
                        right@[b] as int,
                    ) by {
                        if b > j {
                            lemma_before_transitive::<T>(keys, x, y, right@[b] as int);
                        }
                    }
                } else {
                    assert(comes_before::<T>(keys, y, x));
                    assert forall|b: int| i <= b < m implies #[trigger] comes_before::<T>(
                        keys,
                        y,
                        left@[b] as int,
                    ) by {
                        if b > i {
                            lemma_before_transitive::<T>(keys, y, x, left@[b] as int);
                        }
                    }
                }
            }
        }
        if from_left {
            out.push(left[i]);
            i += 1;
        } else {
            out.push(right[j]);
            j += 1;
        }
        proof {
            assert(out@[out@.len() - 1] == out@.last());
            assert forall|k: int| 0 <= k < i implies out@.contains(#[trigger] left@[k]) by {
                if before.contains(left@[k]) {
                    let a = choose|a: int| 0 <= a < before.len() && before[a] == left@[k];
                    assert(out@[a] == left@[k]);
                }
            }
            assert forall|k: int| 0 <= k < j implies out@.contains(#[trigger] right@[k]) by {
                if before.contains(right@[k]) {
                    let a = choose|a: int| 0 <= a < before.len() && before[a] == right@[k];
                    assert(out@[a] == right@[k]);
                }
            }
        }
    }
    assert forall|k: int| low <= k < high implies out@.contains(#[trigger] (k as usize)) by {
        if k < middle {
            assert(left@.contains(k as usize));
            let a = choose|a: int| 0 <= a < left@.len() && left@[a] == k as usize;
            assert(out@.contains(left@[a]));
        } else {
            assert(right@.contains(k as usize));
            let a = choose|a: int| 0 <= a < right@.len() && right@[a] == k as usize;
            assert(out@.contains(right@[a]));
        }
    }
    out
}

fn sort_range<T: Ordered>(items: &Vec<T>, low: usize, high: usize) -> (r: Vec<usize>)
    requires
        low <= high <= items@.len(),
    ensures
        is_stable_order::<T>(keys_of(items@), r@, low as int, high as int),
    decreases high - low,
{
    if high - low == 0 {
        let out: Vec<usize> = Vec::new();
        return out;
    }
    if high - low == 1 {
        let mut out: Vec<usize> = Vec::new();
        out.push(low);
        assert(out@[0] == low);
        return out;
    }
    let middle: usize = low + (high - low) / 2;
    let left = sort_range(items, low, middle);
    let right = sort_range(items, middle, high);
    merge(
        items,
        left,
        right,
        Ghost(low as int),
        Ghost(middle as int),
        Ghost(high as int),
    )
}

/// The indices of the items in stable order.
pub fn stable_order<T: Ordered>(items: &Vec<T>) -> (r: Vec<usize>)
    ensures
        is_stable_order::<T>(keys_of(items@), r@, 0, items@.len() as int),
        r@ == sorted_indices::<T>(keys_of(items@)),
{
    let order = sort_range(items, 0, items.len());
    proof {
        law_stable_order_is_the_only_one::<T>(keys_of(items@), order@);
    }
    order
}

/// The indices of the items in stable order.
pub open spec fn sorted_indices<T: Ordered>(keys: Seq<T::Key>) -> Seq<usize> {
    choose|order: Seq<usize>| is_stable_order::<T>(keys, order, 0, keys.len() as int)
}

proof fn lemma_before_irreflexive<T: Ordered>(keys: Seq<T::Key>, x: int, y: int)
    ensures
        !comes_before::<T>(keys, x, x),
        !(comes_before::<T>(keys, x, y) && comes_before::<T>(keys, y, x)),
{
    T::lemma_total(keys[x], keys[x]);
}

proof fn lemma_tail_contains<T: Ordered>(keys: Seq<T::Key>, a: Seq<usize>, e: usize)
    requires
        a.len() > 0,
        forall|i: int, j: int|
            0 <= i < j < a.len() ==> #[trigger] comes_before::<T>(keys, a[i] as int, a[j] as int),
    ensures
        a.skip(1).contains(e) <==> a.contains(e) && e != a[0],
{
    if a.skip(1).contains(e) {
        let k = choose|k: int| 0 <= k < a.skip(1).len() && a.skip(1)[k] == e;
        assert(a[k + 1] == e);
        assert(comes_before::<T>(keys, a[0] as int, a[k + 1] as int));
        lemma_before_irreflexive::<T>(keys, a[0] as int, a[0] as int);
    }
    if a.contains(e) && e != a[0] {
        let k = choose|k: int| 0 <= k < a.len() && a[k] == e;
        assert(a.skip(1)[k - 1] == e);
    }
}

/// Two lists of the same indices in stable order are one.
proof fn lemma_order_unique<T: Ordered>(keys: Seq<T::Key>, a: Seq<usize>, b: Seq<usize>)
    requires
        forall|i: int, j: int|
            0 <= i < j < a.len() ==> #[trigger] comes_before::<T>(keys, a[i] as int, a[j] as int),
        forall|i: int, j: int|
            0 <= i < j < b.len() ==> #[trigger] comes_before::<T>(keys, b[i] as int, b[j] as int),
        forall|x: usize| #[trigger] a.contains(x) <==> b.contains(x),
    ensures
        a == b,
    decreases a.len(),
{
    if a.len() == 0 {
        if b.len() > 0 {
            assert(b.contains(b[0]));
            assert(a.contains(b[0]));
        }
        assert(a =~= b);
    } else {
        assert(a.contains(a[0]));
        assert(b.contains(a[0]));
        let j = choose|j: int| 0 <= j < b.len() && b[j] == a[0];
        assert(b.contains(b[0]));
        assert(a.contains(b[0]));
        let i = choose|i: int| 0 <= i < a.len() && a[i] == b[0];
        if j > 0 {
            assert(comes_before::<T>(keys, b[0] as int, b[j] as int));
            lemma_before_irreflexive::<T>(keys, b[0] as int, a[0] as int);
            if i > 0 {
                assert(comes_before::<T>(keys, a[0] as int, a[i] as int));
            }
        }
        let x = a.skip(1);
        let y = b.skip(1);
        assert forall|e: usize| #[trigger] x.contains(e) <==> y.contains(e) by {
            lemma_tail_contains::<T>(keys, a, e);
            lemma_tail_contains::<T>(keys, b, e);
            assert(a.contains(e) <==> b.contains(e));
        }
        assert forall|p: int, q: int| 0 <= p < q < x.len() implies #[trigger] comes_before::<T>(
            keys,
            x[p] as int,
            x[q] as int,
        ) by {
            assert(comes_before::<T>(keys, a[p + 1] as int, a[q + 1] as int));
        }
        assert forall|p: int, q: int| 0 <= p < q < y.len() implies #[trigger] comes_before::<T>(
            keys,
            y[p] as int,
            y[q] as int,
        ) by {
            assert(comes_before::<T>(keys, b[p + 1] as int, b[q + 1] as int));
        }
        lemma_order_unique::<T>(keys, x, y);
        assert(a =~= seq![a[0]] + x);
        assert(b =~= seq![b[0]] + y);
    }
}

/// Sorting is stable, loses nothing and adds nothing; and only one list of
/// indices is in stable order.
pub proof fn law_stable_order_is_the_only_one<T: Ordered>(keys: Seq<T::Key>, order: Seq<usize>)
    requires
        is_stable_order::<T>(keys, order, 0, keys.len() as int),
    ensures
        order == sorted_indices::<T>(keys),
{
    let other = sorted_indices::<T>(keys);
    assert(is_stable_order::<T>(keys, other, 0, keys.len() as int));
    assert forall|x: usize| #[trigger] order.contains(x) <==> other.contains(x) by {
        if order.contains(x) {
            let k = choose|k: int| 0 <= k < order.len() && order[k] == x;
            assert(0 <= order[k] < keys.len());
            assert(other.contains((x as int) as usize));
        }
        if other.contains(x) {
            let k = choose|k: int| 0 <= k < other.len() && other[k] == x;
            assert(0 <= other[k] < keys.len());
            assert(order.contains((x as int) as usize));
        }
    }
    lemma_order_unique::<T>(keys, order, other);
}

/// Where a key belongs behind those that are at most as great.
proof fn place_for<T: Ordered>(keys: Seq<T::Key>, order: Seq<usize>, m: int, from: int) -> (p: int)
    requires
        0 <= from <= order.len(),
        forall|i: int|
            0 <= i < from ==> T::at_most(keys[(#[trigger] order[i]) as int], keys[m]),
    ensures
        0 <= p <= order.len(),
        forall|i: int| 0 <= i < p ==> T::at_most(keys[(#[trigger] order[i]) as int], keys[m]),
        p < order.len() ==> !T::at_most(keys[order[p] as int], keys[m]),
    decreases order.len() - from,
{
    if from < order.len() && T::at_most(keys[order[from] as int], keys[m]) {
        place_for::<T>(keys, order, m, from + 1)
    } else {
        from
    }
}

/// A stable order of the first keys.
proof fn order_up_to<T: Ordered>(keys: Seq<T::Key>, n: int) -> (order: Seq<usize>)
    requires
        0 <= n <= keys.len(),
        n <= usize::MAX,
    ensures
        is_stable_order::<T>(keys, order, 0, n),
    decreases n,
{
    if n == 0 {
        Seq::empty()
    } else {
        let front = order_up_to::<T>(keys, n - 1);
        let m = n - 1;
        let p = place_for::<T>(keys, front, m, 0);
        let order = front.insert(p, m as usize);
        assert forall|k: int| 0 <= k < n implies order.contains(#[trigger] (k as usize)) by {
            if k == m {
                assert(order[p] == k as usize);
            } else {
                assert(front.contains(k as usize));
                let i = choose|i: int| 0 <= i < front.len() && front[i] == k as usize;
                if i < p {
                    assert(order[i] == k as usize);
                } else {
                    assert(order[i + 1] == k as usize);
                }
            }
        }
        assert forall|i: int, j: int| 0 <= i < j < order.len() implies #[trigger] comes_before::<T>(
            keys,
            order[i] as int,
            order[j] as int,
        ) by {
            let a = if i < p {
                i
            } else {
                i - 1
            };
            let b = if j < p {
                j
            } else {
                j - 1
            };
            if i != p && j != p {
                assert(comes_before::<T>(keys, front[a] as int, front[b] as int));
            } else if j == p {
                assert(T::at_most(keys[front[i] as int], keys[m]));
            } else {
                let x = front[p] as int;
                let y = front[b] as int;
                T::lemma_total(keys[x], keys[m]);
                if b > p {
                    assert(comes_before::<T>(keys, front[p] as int, front[b] as int));
                    T::lemma_transitive(keys[m], keys[x], keys[y]);
                    if T::at_most(keys[y], keys[m]) {
                        T::lemma_transitive(keys[x], keys[y], keys[m]);
                    }
                }
            }
        }
        order
    }
}

/// Every list of keys that places can be counted of has a stable order, and
/// [`sorted_indices`] is it.
pub proof fn law_sorted_indices_are_in_stable_order<T: Ordered>(keys: Seq<T::Key>)
    requires
        keys.len() <= usize::MAX,
    ensures
        is_stable_order::<T>(keys, sorted_indices::<T>(keys), 0, keys.len() as int),
{
    let order = order_up_to::<T>(keys, keys.len() as int);
    assert(is_stable_order::<T>(keys, order, 0, keys.len() as int));
}

} // verus!
