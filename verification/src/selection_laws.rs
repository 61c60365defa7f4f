//! Which files a search reads and a listing shows, in terms of what is known of
//! each file.
use crate::listing::{
    indexed_listing, law_listed_files_are_those_that_qualify, listing, ListedPath, ListedView,
};
use crate::options::{SearchOptions, SearchOptionsView};
use crate::paths::ScopeView;
use crate::selection::{
    candidates_read, law_files_read_are_those_that_qualify, selected_as, selection, walked_read,
    Candidate, SelectedView, WalkedView,
};
use vstd::prelude::*;

verus! {

/// Whether a path is not too deep: it has fewer slashes than the limit.
pub open spec fn is_shallow(rel: Seq<char>, max_depth: Option<usize>) -> bool {
    max_depth matches Some(max) ==> rel.filter(|c: char| c == '/').len() < max
}

proof fn lemma_shallow(rel: Seq<char>, max_depth: Option<usize>)
    ensures
        crate::paths::is_within_depth(rel, max_depth) == is_shallow(rel, max_depth),
{
    if let Some(max) = max_depth {
        crate::path_laws::law_depth_counts_slashes(rel, max);
    }
}

/// Whether a size is within the limit of a search. A file that was named is only
/// held to a limit that was asked for.
pub open spec fn is_small(size: Option<u64>, o: SearchOptions, named: bool) -> bool {
    ||| o.max_filesize is None
    ||| size is None
    ||| size->0 <= o.max_filesize->0
    ||| named && !o.max_filesize_requested
}

/// A file of an index is read if and only if it is visible, below the search
/// root, not too deep, taken by the filters, within the limit of size and
/// readable: under its path relative to the search, whatever the order.
pub proof fn law_searches_read_every_file_that_qualifies(
    candidates: Seq<Candidate>,
    scope: ScopeView,
    named: Seq<char>,
    o: SearchOptions,
    path: Seq<char>,
)
    requires
        candidates.len() <= usize::MAX,
    ensures
        candidates_read(candidates, scope, named, o@).contains(path) <==> exists|i: int|
            0 <= i < candidates.len() && {
                let c = #[trigger] candidates[i];
                &&& c.visible
                &&& scope.relative(c.path@, named) == Some(path)
                &&& is_shallow(path, o.max_depth)
                &&& c.facts.passes
                &&& is_small(c.facts.size, o, scope is File)
                &&& c.facts.readable
            },
{
    law_files_read_are_those_that_qualify(candidates, scope, named, o@, path);
    lemma_shallow(path, o.max_depth);
    if candidates_read(candidates, scope, named, o@).contains(path) {
        let i = choose|i: int|
            0 <= i < candidates.len() && (selected_as(
                #[trigger] candidates[i],
                scope,
                named,
                o@.max_depth,
            ) matches Some(s) && s.path == path && crate::selection::is_read(
                s.facts,
                o@,
                scope is File,
            ));
        let c = candidates[i];
        assert(c.visible);
        assert(is_small(c.facts.size, o, scope is File));
    }
    if exists|i: int|
        0 <= i < candidates.len() && {
            let c = #[trigger] candidates[i];
            &&& c.visible
            &&& scope.relative(c.path@, named) == Some(path)
            &&& is_shallow(path, o.max_depth)
            &&& c.facts.passes
            &&& is_small(c.facts.size, o, scope is File)
            &&& c.facts.readable
        } {
        let i = choose|i: int|
            0 <= i < candidates.len() && {
                let c = #[trigger] candidates[i];
                &&& c.visible
                &&& scope.relative(c.path@, named) == Some(path)
                &&& is_shallow(path, o.max_depth)
                &&& c.facts.passes
                &&& is_small(c.facts.size, o, scope is File)
                &&& c.facts.readable
            };
        let s = selected_as(candidates[i], scope, named, o@.max_depth)->0;
        assert(s.path == path && crate::selection::is_read(s.facts, o@, scope is File));
    }
}

/// Without an order that is asked for, files are read in the order of the
/// candidates: those of two lists, one behind the other, are those of the one
/// and then those of the other.
pub proof fn law_searches_read_files_in_turn(
    a: Seq<Candidate>,
    b: Seq<Candidate>,
    scope: ScopeView,
    named: Seq<char>,
    o: SearchOptions,
)
    requires
        o.sort is None,
    ensures
        candidates_read(a + b, scope, named, o@) == candidates_read(a, scope, named, o@)
            + candidates_read(b, scope, named, o@),
{
    let f = |c: Candidate| selected_as(c, scope, named, o@.max_depth);
    let g = |s: SelectedView| crate::selection::path_read(s, o@, scope is File);
    lemma_parts(a, b, f);
    lemma_parts(a.filter_map(f), b.filter_map(f), g);
}

proof fn lemma_parts<A, B>(a: Seq<A>, b: Seq<A>, f: spec_fn(A) -> Option<B>)
    ensures
        (a + b).filter_map(f) == a.filter_map(f) + b.filter_map(f),
    decreases b.len(),
{
    if b.len() == 0 {
        assert(a + b =~= a);
        assert(a.filter_map(f) + b.filter_map(f) =~= a.filter_map(f));
    } else {
        lemma_parts(a, b.drop_last(), f);
        assert((a + b).drop_last() =~= a + b.drop_last());
        assert((a + b).last() == b.last());
        let one = match f(b.last()) {
            Some(r) => seq![r],
            None => Seq::empty(),
        };
        assert(b.drop_last().filter_map(f) + one =~= b.filter_map(f));
        assert(a.filter_map(f) + (b.drop_last().filter_map(f) + one) =~= a.filter_map(f)
            + b.drop_last().filter_map(f) + one);
    }
}

/// A scan reads every file that the walk found, the filters take and that can be
/// read, in order, under its path below the search root with slashes.
pub proof fn law_scans_read_every_file_that_qualifies(
    list: Seq<WalkedView>,
    f: WalkedView,
    separator: char,
    below: Seq<char>,
)
    requires
        f.below == Some(below),
    ensures
        ({
            let before = walked_read(list, None, separator);
            let after = walked_read(list.push(f), None, separator);
            if f.facts.passes && f.facts.readable {
                after == before.push(crate::text::replaced(below, '\\', '/'))
            } else {
                after == before
            }
        }),
{
    let g = |f: WalkedView| crate::selection::walked_as(f);
    assert(list.push(f).drop_last() =~= list);
    if let Some(rel) = g(f) {
        assert(list.filter_map(g) + seq![rel] =~= list.filter_map(g).push(rel));
    }
}

/// A file is listed if and only if its path, where it first comes, is visible,
/// below the search root, not too deep and taken by the filters.
pub proof fn law_listings_show_every_file_that_qualifies(
    paths: Seq<ListedPath>,
    scope: ScopeView,
    named: Seq<char>,
    max_depth: Option<usize>,
    one: ListedView,
)
    ensures
        listing(paths, paths.len(), scope, named, max_depth).contains(one) <==> exists|i: int|
            0 <= i < paths.len() && {
                let p = #[trigger] paths[i];
                &&& p.visible
                &&& p.passes
                &&& p.time == one.1
                &&& scope.relative(p.path@, named) == Some(one.0)
                &&& is_shallow(one.0, max_depth)
                &&& forall|j: int| 0 <= j < i ==> (#[trigger] paths[j]).path@ != p.path@
            },
{
    law_listed_files_are_those_that_qualify(paths, paths.len(), scope, named, max_depth, one);
    lemma_shallow(one.0, max_depth);
    if listing(paths, paths.len(), scope, named, max_depth).contains(one) {
        let i = choose|i: int|
            0 <= i < paths.len() && #[trigger] crate::listing::listed_as(
                paths,
                i,
                scope,
                named,
                max_depth,
            ) == Some(one);
        assert(paths[i].visible);
        assert forall|j: int| 0 <= j < i implies (#[trigger] paths[j]).path@ != paths[i].path@ by {
            if paths[j].path@ == paths[i].path@ {
                assert(crate::listing::seen_before(paths, paths[i].path@, i));
            }
        }
    }
    if exists|i: int|
        0 <= i < paths.len() && {
            let p = #[trigger] paths[i];
            &&& p.visible
            &&& p.passes
            &&& p.time == one.1
            &&& scope.relative(p.path@, named) == Some(one.0)
            &&& is_shallow(one.0, max_depth)
            &&& forall|j: int| 0 <= j < i ==> (#[trigger] paths[j]).path@ != p.path@
        } {
        let i = choose|i: int|
            0 <= i < paths.len() && {
                let p = #[trigger] paths[i];
                &&& p.visible
                &&& p.passes
                &&& p.time == one.1
                &&& scope.relative(p.path@, named) == Some(one.0)
                &&& is_shallow(one.0, max_depth)
                &&& forall|j: int| 0 <= j < i ==> (#[trigger] paths[j]).path@ != p.path@
            };
        assert(!crate::listing::seen_before(paths, paths[i].path@, i));
        assert(crate::listing::listed_as(paths, i, scope, named, max_depth) == Some(one));
    }
}

/// Without an order that is asked for, files are listed in the order in which
/// their paths come: each is listed behind those before it.
pub proof fn law_listings_are_in_the_order_of_the_paths(
    paths: Seq<ListedPath>,
    n: nat,
    scope: ScopeView,
    named: Seq<char>,
    max_depth: Option<usize>,
)
    requires
        n < paths.len(),
    ensures
        ({
            let before = listing(paths, n, scope, named, max_depth);
            let after = listing(paths, n + 1, scope, named, max_depth);
            after == before || (after.len() == before.len() + 1 && after.drop_last() == before)
        }),
{
    let before = listing(paths, n, scope, named, max_depth);
    if let Some(one) = crate::listing::listed_as(paths, n as int, scope, named, max_depth) {
        assert(before.push(one).drop_last() =~= before);
    }
}

/// A listing is written as it is selected where no order is asked for, and with
/// every file in place where one is.
pub proof fn law_listings_are_written_in_order(
    paths: Seq<ListedPath>,
    scope: ScopeView,
    named: Seq<char>,
    o: SearchOptionsView,
    file: Seq<char>,
)
    requires
        paths.len() <= usize::MAX,
    ensures
        ({
            let list = listing(paths, paths.len(), scope, named, o.max_depth);
            let written = indexed_listing(paths, scope, named, o);
            &&& written.len() == list.len()
            &&& o.sort is None ==> forall|i: int|
                0 <= i < list.len() ==> #[trigger] written[i] == list[i].0
            &&& o.sort matches Some(mode) ==> forall|i: int|
                0 <= i < list.len() ==> #[trigger] written[i] == list[mode.order_of(
                    Seq::new(list.len(), |k: int| list[k].0),
                    Seq::new(list.len(), |k: int| list[k].1),
                )[i] as int].0
        }),
{
    let list = listing(paths, paths.len(), scope, named, o.max_depth);
    lemma_listing_len(paths, paths.len(), scope, named, o.max_depth);
    let names = crate::listing::listed_paths(list);
    let times = crate::listing::listed_times(list);
    assert(names =~= Seq::new(list.len(), |k: int| list[k].0));
    assert(times =~= Seq::new(list.len(), |k: int| list[k].1));
    if let Some(mode) = o.sort {
        crate::sort::law_ordering_keeps_every_item(mode, names, names, times, file);
        let written = indexed_listing(paths, scope, named, o);
        let order = mode.order_of(names, times);
        assert forall|i: int| 0 <= i < list.len() implies #[trigger] written[i]
            == list[order[i] as int].0 by {
            assert(order[i] < names.len());
        }
    }
}

proof fn lemma_listing_len(
    paths: Seq<ListedPath>,
    n: nat,
    scope: ScopeView,
    named: Seq<char>,
    max_depth: Option<usize>,
)
    ensures
        listing(paths, n, scope, named, max_depth).len() <= n,
    decreases n,
{
    if n > 0 {
        lemma_listing_len(paths, (n - 1) as nat, scope, named, max_depth);
    }
}

} // verus!
