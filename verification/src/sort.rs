//! The order of results.
use crate::meta::FileTime;
use crate::order::{
    comes_before, is_stable_order, keys_of, law_sorted_indices_are_in_stable_order, sorted_indices, stable_order, Ordered,
};
use crate::paths::{
    lemma_parts_irreflexive, lemma_parts_total, lemma_parts_transitive, part_of, parts_of,
    parts_precede, lead_of, with_slashes, Part,
};
use crate::text::{
    before, chars_of, lemma_pieces_nonempty, lemma_texts_push, owned, pieces, replace_char, same, split,
    texts,
};
use vstd::prelude::*;

verus! {

/// What results are ordered by.
#[derive(Clone, Copy, Debug, PartialEq, Eq, Structural)]
pub enum SortKey {
    Path,
    Modified,
    Accessed,
    Created,
}

/// How results are ordered.
#[derive(Clone, Copy, Debug, PartialEq, Eq, Structural)]
pub struct SortMode {
    pub key: SortKey,
    pub reverse: bool,
}

impl SortKey {
    /// The key with a name.
    pub open spec fn named(s: Seq<char>) -> Option<SortKey> {
        if s == "path"@ {
            Some(SortKey::Path)
        } else if s == "modified"@ {
            Some(SortKey::Modified)
        } else if s == "accessed"@ {
            Some(SortKey::Accessed)
        } else if s == "created"@ {
            Some(SortKey::Created)
        } else {
            None
        }
    }

    /// The key with a name.
    pub fn from_str_opt(s: &str) -> (r: Option<SortKey>)
        ensures
            r == SortKey::named(s@),
    {
        if same(s, "path") {
            Some(SortKey::Path)
        } else if same(s, "modified") {
            Some(SortKey::Modified)
        } else if same(s, "accessed") {
            Some(SortKey::Accessed)
        } else if same(s, "created") {
            Some(SortKey::Created)
        } else {
            None
        }
    }
}

/// A path and the time it is ordered by, where that is known and asked for.
pub struct SortItem {
    pub path: String,
    pub time: Option<FileTime>,
}

/// Whether one time comes before another; an unknown one before all.
pub open spec fn time_precedes(a: Option<FileTime>, b: Option<FileTime>) -> bool {
    match (a, b) {
        (None, Some(_)) => true,
        (Some(x), Some(y)) => x.seconds < y.seconds || (x.seconds == y.seconds && x.nanos
            < y.nanos),
        _ => false,
    }
}

fn time_before(a: &Option<FileTime>, b: &Option<FileTime>) -> (r: bool)
    ensures
        r == time_precedes(*a, *b),
{
    match (a, b) {
        (None, Some(_)) => true,
        (Some(x), Some(y)) => x.seconds < y.seconds || (x.seconds == y.seconds && x.nanos
            < y.nanos),
        _ => false,
    }
}

/// A component of a path: its sort and its name.
struct PathPart {
    rank: u8,
    name: String,
}

spec fn part_views(parts: Seq<PathPart>) -> Seq<Part> {
    parts.map_values(|p: PathPart| (p.rank as int, p.name@))
}

proof fn lemma_push_part(parts: Seq<PathPart>, p: PathPart)
    ensures
        part_views(parts.push(p)) == part_views(parts).push((p.rank as int, p.name@)),
{
    assert(part_views(parts.push(p)) =~= part_views(parts).push((p.rank as int, p.name@)));
}

fn empty_name() -> (r: String)
    ensures
        r@ == Seq::<char>::empty(),
{
    let r = String::new();
    assert(r@ =~= Seq::<char>::empty());
    r
}

/// The components of a path.
fn path_parts(path: &str) -> (r: Vec<PathPart>)
    ensures
        part_views(r@) == parts_of(path@),
{
    let names = split(path, '/');
    let chars = chars_of(path);
    proof {
        lemma_pieces_nonempty(path@, '/');
    }
    let ghost all = pieces(path@, '/');
    let ghost f = |p: String| p@;
    assert(all == names@.map_values(f));
    let mut out: Vec<PathPart> = Vec::new();
    assert(part_views(out@) =~= Seq::<Part>::empty());
    assert(names@[0]@ == all[0]);
    if chars.len() > 0 && chars[0] == '/' {
        let root = PathPart { rank: 0, name: empty_name() };
        proof {
            lemma_push_part(out@, root);
        }
        out.push(root);
    } else if same(names[0].as_str(), ".") {
        let here = PathPart { rank: 1, name: empty_name() };
        proof {
            lemma_push_part(out@, here);
        }
        out.push(here);
    }
    let ghost lead = part_views(out@);
    assert(lead =~= lead_of(path@));
    let ghost g = |p: Seq<char>| part_of(p);
    let mut i: usize = 0;
    assert(lead + all.take(0).filter_map(g) =~= lead);
    while i < names.len()
        invariant
            i <= names@.len(),
            f == (|p: String| p@),
            g == (|p: Seq<char>| part_of(p)),
            all == names@.map_values(f),
            part_views(out@) == lead + all.take(i as int).filter_map(g),
        decreases names@.len() - i,
    {
        let name = names[i].as_str();
        let ghost before = part_views(out@);
        let ghost done = all.take(i as int).filter_map(g);
        proof {
            assert(all.take(i + 1).drop_last() =~= all.take(i as int));
            assert(all.take(i + 1).last() == name@);
        }
        if !name.is_empty() && !same(name, ".") {
            let part = if same(name, "..") {
                PathPart { rank: 2, name: empty_name() }
            } else {
                PathPart { rank: 3, name: owned(name) }
            };
            let ghost p = (part.rank as int, part.name@);
            proof {
                lemma_push_part(out@, part);
                assert(part_of(name@) == Some(p));
                assert((lead + done).push(p) =~= lead + (done + seq![p]));
            }
            out.push(part);
        }
        i += 1;
    }
    assert(all.take(all.len() as int) =~= all);
    out
}

fn parts_before(a: &Vec<PathPart>, b: &Vec<PathPart>) -> (r: bool)
    ensures
        r == parts_precede(part_views(a@), part_views(b@)),
{
    let ghost x = part_views(a@);
    let ghost y = part_views(b@);
    let mut i: usize = 0;
    assert(x.skip(0) =~= x);
    assert(y.skip(0) =~= y);
    loop
        invariant
            i <= a@.len(),
            i <= b@.len(),
            x == part_views(a@),
            y == part_views(b@),
            parts_precede(x, y) == parts_precede(x.skip(i as int), y.skip(i as int)),
        decreases a@.len() - i,
    {
        if i >= b.len() {
            return false;
        }
        if i >= a.len() {
            return true;
        }
        assert(x[i as int] == (a@[i as int].rank as int, a@[i as int].name@));
        assert(y[i as int] == (b@[i as int].rank as int, b@[i as int].name@));
        if a[i].rank != b[i].rank {
            return a[i].rank < b[i].rank;
        }
        if !same(a[i].name.as_str(), b[i].name.as_str()) {
            return before(a[i].name.as_str(), b[i].name.as_str());
        }
        assert(x.skip(i as int).skip(1) =~= x.skip(i + 1));
        assert(y.skip(i as int).skip(1) =~= y.skip(i + 1));
        i += 1;
    }
}

/// What a path and its time are ordered by.
pub type SortedBy = (Option<FileTime>, Seq<char>);

impl Ordered for SortItem {
    type Key = SortedBy;

    open spec fn key(self) -> SortedBy {
        (self.time, self.path@)
    }

    open spec fn at_most(a: SortedBy, b: SortedBy) -> bool {
        time_precedes(a.0, b.0) || (a.0 == b.0 && !parts_precede(parts_of(b.1), parts_of(a.1)))
    }

    proof fn lemma_total(a: SortedBy, b: SortedBy) {
        let x = parts_of(a.1);
        let y = parts_of(b.1);
        if parts_precede(x, y) && parts_precede(y, x) {
            lemma_parts_transitive(x, y, x);
            lemma_parts_irreflexive(x);
        }
    }

    proof fn lemma_transitive(a: SortedBy, b: SortedBy, c: SortedBy) {
        let x = parts_of(a.1);
        let y = parts_of(b.1);
        let z = parts_of(c.1);
        if a.0 == b.0 && b.0 == c.0 && parts_precede(z, x) {
            lemma_parts_total(y, x);
            if parts_precede(x, y) {
                lemma_parts_transitive(z, x, y);
            }
        }
    }

    fn is_at_most(&self, other: &Self) -> (r: bool) {
        if time_before(&self.time, &other.time) {
            return true;
        }
        if time_before(&other.time, &self.time) {
            return false;
        }
        let a = path_parts(self.path.as_str());
        let b = path_parts(other.path.as_str());
        !parts_before(&b, &a)
    }
}

/// What a list of paths and their times are ordered by.
pub open spec fn sort_keys(
    key: SortKey,
    paths: Seq<Seq<char>>,
    times: Seq<Option<FileTime>>,
) -> Seq<SortedBy> {
    Seq::new(
        paths.len(),
        |i: int|
            (
                if key == SortKey::Path || i >= times.len() {
                    None
                } else {
                    times[i]
                },
                paths[i],
            ),
    )
}

/// Whether an order is one of the first `n` places.
pub open spec fn is_order(order: Seq<usize>, n: nat) -> bool {
    order.len() == n && forall|i: int| 0 <= i < order.len() ==> #[trigger] order[i] < n
}

/// The items at the places of an order.
pub open spec fn at_places<T>(items: Seq<T>, order: Seq<usize>) -> Seq<T> {
    order.map_values(|i: usize| items[i as int])
}

/// Paths with slashes in place of the platform's separator.
pub open spec fn slashed_texts(paths: Seq<Seq<char>>, separator: char) -> Seq<Seq<char>> {
    paths.map_values(|p: Seq<char>| with_slashes(p, separator))
}

fn slash_all(paths: &Vec<String>, separator: char) -> (r: Vec<String>)
    ensures
        texts(r@) == slashed_texts(texts(paths@), separator),
{
    let mut out: Vec<String> = Vec::new();
    let ghost all = texts(paths@);
    let mut i: usize = 0;
    assert(texts(out@) =~= slashed_texts(all.take(0), separator));
    while i < paths.len()
        invariant
            i <= paths@.len(),
            all == texts(paths@),
            texts(out@) == slashed_texts(all.take(i as int), separator),
        decreases paths@.len() - i,
    {
        let next = replace_char(paths[i].as_str(), separator, '/');
        proof {
            lemma_texts_push(out@, next);
            assert(slashed_texts(all.take(i + 1), separator) =~= slashed_texts(
                all.take(i as int),
                separator,
            ).push(next@));
        }
        out.push(next);
        i += 1;
    }
    assert(all.take(all.len() as int) =~= all);
    out
}

/// Something that is found at a path.
pub trait Placed: Sized {
    /// The path.
    spec fn place(&self) -> Seq<char>;

    /// The path.
    fn path_text(&self) -> (r: &str)
        ensures
            r@ == self.place(),
    ;

    /// The same again.
    fn duplicate(&self) -> (r: Self)
        ensures
            r == *self,
    ;
}

impl Placed for String {
    open spec fn place(&self) -> Seq<char> {
        self@
    }

    fn path_text(&self) -> (r: &str) {
        self.as_str()
    }

    fn duplicate(&self) -> (r: Self) {
        self.clone()
    }
}

/// The paths of a list.
pub open spec fn places<T: Placed>(items: Seq<T>) -> Seq<Seq<char>> {
    items.map_values(|t: T| t.place())
}

/// The paths of a list, as texts.
pub fn place_texts<T: Placed>(items: &Vec<T>) -> (r: Vec<String>)
    ensures
        texts(r@) == places(items@),
        r@.len() == items@.len(),
{
    let mut out: Vec<String> = Vec::new();
    let ghost g = |t: T| t.place();
    let mut i: usize = 0;
    assert(texts(out@) =~= items@.take(0).map_values(g));
    while i < items.len()
        invariant
            i <= items@.len(),
            out@.len() == i,
            g == (|t: T| t.place()),
            texts(out@) == items@.take(i as int).map_values(g),
        decreases items@.len() - i,
    {
        let path = owned(items[i].path_text());
        proof {
            lemma_texts_push(out@, path);
            assert(items@.take(i + 1).map_values(g) =~= items@.take(i as int).map_values(g).push(
                path@,
            ));
        }
        out.push(path);
        i += 1;
    }
    assert(items@.take(items@.len() as int) =~= items@);
    out
}

fn pick<T: Placed>(items: &Vec<T>, order: &Vec<usize>) -> (r: Vec<T>)
    requires
        forall|j: int| 0 <= j < order@.len() ==> #[trigger] order@[j] < items@.len(),
    ensures
        r@ == at_places(items@, order@),
{
    let mut out: Vec<T> = Vec::new();
    let ghost f = |i: usize| items@[i as int];
    let mut k: usize = 0;
    assert(out@ =~= order@.take(0).map_values(f));
    while k < order.len()
        invariant
            k <= order@.len(),
            f == (|i: usize| items@[i as int]),
            forall|j: int| 0 <= j < order@.len() ==> #[trigger] order@[j] < items@.len(),
            out@ == order@.take(k as int).map_values(f),
        decreases order@.len() - k,
    {
        let at: usize = order[k];
        out.push(items[at].duplicate());
        assert(order@.take(k + 1).map_values(f) =~= order@.take(k as int).map_values(f).push(
            items@[at as int],
        ));
        k += 1;
    }
    assert(order@.take(order@.len() as int) =~= order@);
    out
}

impl SortMode {
    /// The places of a list of paths in order: by time where that is asked
    /// for, files without a known time first, then component-wise by path, and
    /// of equal paths the earlier first. The reverse order is that list
    /// backwards.
    pub open spec fn order_of(
        self,
        paths: Seq<Seq<char>>,
        times: Seq<Option<FileTime>>,
    ) -> Seq<usize> {
        let order = sorted_indices::<SortItem>(sort_keys(self.key, paths, times));
        if self.reverse {
            order.reverse()
        } else {
            order
        }
    }

    /// An order has every place once.
    pub proof fn lemma_order_distinct(self, paths: Seq<Seq<char>>, times: Seq<Option<FileTime>>)
        requires
            is_stable_order::<SortItem>(
                sort_keys(self.key, paths, times),
                sorted_indices::<SortItem>(sort_keys(self.key, paths, times)),
                0,
                paths.len() as int,
            ),
        ensures
            forall|i: int, j: int|
                0 <= i < j < self.order_of(paths, times).len() ==> #[trigger] self.order_of(
                    paths,
                    times,
                )[i] != #[trigger] self.order_of(paths, times)[j],
    {
        let keys = sort_keys(self.key, paths, times);
        let order = sorted_indices::<SortItem>(keys);
        let all = self.order_of(paths, times);
        assert forall|i: int, j: int| 0 <= i < j < all.len() implies #[trigger] all[i]
            != #[trigger] all[j] by {
            let n = order.len();
            let a = if self.reverse { n - 1 - j } else { i };
            let b = if self.reverse { n - 1 - i } else { j };
            assert(comes_before::<SortItem>(keys, order[a] as int, order[b] as int));
            SortItem::lemma_total(keys[order[a] as int], keys[order[a] as int]);
        }
    }

    /// Orders paths, whose times stand at the same places in `times`.
    pub fn order(&self, paths: &Vec<String>, times: &Vec<Option<FileTime>>) -> (r: Vec<usize>)
        ensures
            r@ == self.order_of(texts(paths@), times@),
            r@.len() == paths@.len(),
            forall|i: int| 0 <= i < r@.len() ==> #[trigger] r@[i] < paths@.len(),
            is_stable_order::<SortItem>(
                sort_keys(self.key, texts(paths@), times@),
                sorted_indices::<SortItem>(sort_keys(self.key, texts(paths@), times@)),
                0,
                paths@.len() as int,
            ),
    {
        let ghost keys = sort_keys(self.key, texts(paths@), times@);
        let mut items: Vec<SortItem> = Vec::new();
        let mut i: usize = 0;
        while i < paths.len()
            invariant
                i <= paths@.len(),
                keys == sort_keys(self.key, texts(paths@), times@),
                items@.len() == i,
                forall|k: int| 0 <= k < i ==> (#[trigger] items@[k]).key() == keys[k],
            decreases paths@.len() - i,
        {
            let time = if self.key == SortKey::Path || i >= times.len() {
                None
            } else {
                times[i]
            };
            items.push(SortItem { path: paths[i].clone(), time });
            i += 1;
        }
        assert(keys_of(items@) =~= keys);
        let order = stable_order(&items);
        if !self.reverse {
            return order;
        }
        let mut out: Vec<usize> = Vec::new();
        let mut k: usize = order.len();
        while k > 0
            invariant
                k <= order@.len(),
                out@ == order@.reverse().take(order@.len() - k),
                forall|j: int| 0 <= j < order@.len() ==> #[trigger] order@[j] < paths@.len(),
            decreases k,
        {
            k -= 1;
            out.push(order[k]);
            assert(order@.reverse().take(order@.len() - k) =~= order@.reverse().take(
                order@.len() - k - 1,
            ).push(order@[k as int]));
        }
        assert(order@.reverse().take(order@.len() as int) =~= order@.reverse());
        assert forall|j: int| 0 <= j < out@.len() implies #[trigger] out@[j] < paths@.len() by {
            assert(out@[j] == order@[order@.len() - 1 - j]);
        }
        out
    }

    /// Orders what a walk found, at paths that the platform separates by
    /// `separator` or by slashes.
    pub fn apply<T: Placed>(
        &self,
        found: Vec<T>,
        times: &Vec<Option<FileTime>>,
        separator: char,
    ) -> (r: Vec<T>)
        ensures
            r@ == at_places(
                found@,
                self.order_of(slashed_texts(places(found@), separator), times@),
            ),
            is_order(
                self.order_of(slashed_texts(places(found@), separator), times@),
                found@.len(),
            ),
    {
        let paths = place_texts(&found);
        let slashed = slash_all(&paths, separator);
        let order = self.order(&slashed, times);
        assert(paths@.len() == texts(paths@).len() && slashed@.len() == texts(slashed@).len());
        pick(&found, &order)
    }

    /// Orders the entries of an index by their paths relative to the search.
    pub fn apply_indexed<T: Placed>(&self, entries: Vec<T>, times: &Vec<Option<FileTime>>) -> (r:
        Vec<T>)
        ensures
            r@ == at_places(entries@, self.order_of(places(entries@), times@)),
            r@.len() == entries@.len(),
            is_order(self.order_of(places(entries@), times@), entries@.len()),
    {
        let paths = place_texts(&entries);
        let order = self.order(&paths, times);
        pick(&entries, &order)
    }
}

/// Ordering keeps every item, once: an order has every place, and none twice.
pub proof fn law_ordering_keeps_every_item<A>(
    mode: SortMode,
    items: Seq<A>,
    paths: Seq<Seq<char>>,
    times: Seq<Option<FileTime>>,
    item: A,
)
    requires
        items.len() == paths.len(),
        items.len() <= usize::MAX,
    ensures
        is_order(mode.order_of(paths, times), items.len()),
        mode.order_of(paths, times).no_duplicates(),
        at_places(items, mode.order_of(paths, times)).len() == items.len(),
        at_places(items, mode.order_of(paths, times)).contains(item) <==> items.contains(item),
{
    let keys = sort_keys(mode.key, paths, times);
    law_sorted_indices_are_in_stable_order::<SortItem>(keys);
    mode.lemma_order_distinct(paths, times);
    let sorted = sorted_indices::<SortItem>(keys);
    let order = mode.order_of(paths, times);
    assert forall|i: int| 0 <= i < order.len() implies #[trigger] order[i] < items.len() by {
        let j = if mode.reverse { sorted.len() - 1 - i } else { i };
        assert(order[i] == sorted[j]);
    }
    assert forall|i: int, j: int| 0 <= i < order.len() && 0 <= j < order.len() && i != j implies
        order[i] != order[j] by {
        if i < j {
            assert(order[i] != order[j]);
        } else {
            assert(order[j] != order[i]);
        }
    }
    let placed = at_places(items, order);
    if placed.contains(item) {
        let i = choose|i: int| 0 <= i < placed.len() && placed[i] == item;
        assert(items[order[i] as int] == item);
    }
    if items.contains(item) {
        let k = choose|k: int| 0 <= k < items.len() && items[k] == item;
        assert(sorted.contains(k as usize));
        let j = choose|j: int| 0 <= j < sorted.len() && sorted[j] == k as usize;
        let i = if mode.reverse { sorted.len() - 1 - j } else { j };
        assert(order[i] == k as usize);
        assert(placed[i] == item);
    }
}

} // verus!
