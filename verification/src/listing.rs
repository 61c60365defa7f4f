//! Listing the files that a search would look at.
use crate::meta::FileTime;
use crate::options::{SearchOptions, SearchOptionsView};
use crate::output::OutputWriter;
use crate::path_map::PathMap;
use crate::paths::{
    is_within_depth, lemma_relative_is_told_apart, within_max_depth, IndexScope, ScopeView,
};
use crate::row_output::{files_written, write_files};
use crate::sort::{at_places, places, SortMode};
use crate::text::{lemma_texts_push, texts};
use vstd::prelude::*;

verus! {

/// An indexed path, and what is known of its file.
pub struct ListedPath {
    pub path: String,
    /// Whether the file is visible under the search's rules.
    pub visible: bool,
    /// Whether the globs and the types take it, by its path relative to the
    /// search.
    pub passes: bool,
    /// The time it is ordered by, where that is known and asked for.
    pub time: Option<FileTime>,
}

/// A file that is listed: its path relative to the search, and its time.
pub type ListedView = (Seq<char>, Option<FileTime>);

/// Whether a path occurs among the first `n`.
pub open spec fn seen_before(paths: Seq<ListedPath>, path: Seq<char>, n: int) -> bool {
    exists|j: int| 0 <= j < n && (#[trigger] paths[j]).path@ == path
}

/// What a file is listed as: relative to the search root, where it first occurs,
/// and only if it is visible, shallow enough and taken by the filters.
pub open spec fn listed_as(
    paths: Seq<ListedPath>,
    i: int,
    scope: ScopeView,
    named: Seq<char>,
    max_depth: Option<usize>,
) -> Option<ListedView> {
    let path = paths[i];
    if seen_before(paths, path.path@, i) || !path.visible {
        None
    } else {
        match scope.relative(path.path@, named) {
            Some(rel) => if is_within_depth(rel, max_depth) && path.passes {
                Some((rel, path.time))
            } else {
                None
            },
            None => None,
        }
    }
}

/// The files that are listed of the first `n`.
pub open spec fn listing(
    paths: Seq<ListedPath>,
    n: nat,
    scope: ScopeView,
    named: Seq<char>,
    max_depth: Option<usize>,
) -> Seq<ListedView>
    decreases n,
{
    if n == 0 {
        Seq::empty()
    } else {
        let front = listing(paths, (n - 1) as nat, scope, named, max_depth);
        match listed_as(paths, n - 1, scope, named, max_depth) {
            Some(one) => front.push(one),
            None => front,
        }
    }
}

/// The paths of files that are listed.
pub open spec fn listed_paths(list: Seq<ListedView>) -> Seq<Seq<char>> {
    list.map_values(|e: ListedView| e.0)
}

/// The times of files that are listed.
pub open spec fn listed_times(list: Seq<ListedView>) -> Seq<Option<FileTime>> {
    list.map_values(|e: ListedView| e.1)
}

/// Takes the files that are listed from a list of indexed paths: their paths
/// relative to the search, and beside them their times.
pub fn select_listed(
    paths: &Vec<ListedPath>,
    scope: &IndexScope,
    named: &str,
    max_depth: Option<usize>,
) -> (r: (Vec<String>, Vec<Option<FileTime>>))
    ensures
        texts(r.0@) == listed_paths(listing(paths@, paths@.len(), scope@, named@, max_depth)),
        r.1@ == listed_times(listing(paths@, paths@.len(), scope@, named@, max_depth)),
{
    let mut out: Vec<String> = Vec::new();
    let mut times: Vec<Option<FileTime>> = Vec::new();
    let mut seen: PathMap<bool> = PathMap::new();
    let mut i: usize = 0;
    assert(texts(out@) =~= listed_paths(Seq::empty()));
    assert(times@ =~= listed_times(Seq::empty()));
    while i < paths.len()
        invariant
            i <= paths@.len(),
            seen.wf(),
            forall|p: Seq<char>| #[trigger]
                seen@.contains_key(p) == seen_before(paths@, p, i as int),
            texts(out@) == listed_paths(listing(paths@, i as nat, scope@, named@, max_depth)),
            times@ == listed_times(listing(paths@, i as nat, scope@, named@, max_depth)),
        decreases paths@.len() - i,
    {
        let item = &paths[i];
        let ghost before = seen@;
        let ghost front = listing(paths@, i as nat, scope@, named@, max_depth);
        assert(seen@.contains_key(item.path@) == seen_before(paths@, item.path@, i as int));
        if !seen.contains_key(item.path.as_str()) {
            seen.insert(item.path.clone(), true);
            if item.visible {
                if let Some(rel) = scope.relativize(item.path.as_str(), named) {
                    if within_max_depth(rel.as_str(), max_depth) && item.passes {
                        proof {
                            lemma_texts_push(out@, rel);
                            let one = (rel@, item.time);
                            assert(listed_paths(front.push(one)) =~= listed_paths(front).push(
                                rel@,
                            ));
                            assert(listed_times(front.push(one)) =~= listed_times(front).push(
                                item.time,
                            ));
                        }
                        out.push(rel);
                        times.push(item.time);
                    }
                }
            }
        }
        proof {
            assert forall|p: Seq<char>| #[trigger] seen@.contains_key(p) == seen_before(
                paths@,
                p,
                i + 1,
            ) by {
                assert(before.contains_key(p) == seen_before(paths@, p, i as int));
                if seen_before(paths@, p, i as int) {
                    let j = choose|j: int| 0 <= j < i && (#[trigger] paths@[j]).path@ == p;
                    assert(paths@[j].path@ == p);
                }
                if p == item.path@ {
                    assert(paths@[i as int].path@ == p);
                }
            }
        }
        i += 1;
    }
    (out, times)
}

/// The order in which files are listed.
pub open spec fn listed_order(
    files: Seq<Seq<char>>,
    sort: Option<SortMode>,
    times: Seq<Option<FileTime>>,
) -> Seq<Seq<char>> {
    match sort {
        Some(sort) => at_places(files, sort.order_of(files, times)),
        None => files,
    }
}

/// Writes a list of files, in the order that is asked for, and hands it on.
/// `times` are those of the files, where they are ordered by time.
pub fn write_listing(
    files: Vec<String>,
    sort: Option<SortMode>,
    times: &Vec<Option<FileTime>>,
    writer: &mut OutputWriter,
)
    requires
        old(writer).wf(),
    ensures
        final(writer).wf(),
        final(writer).style() == old(writer).style(),
        final(writer)@ == old(writer).style().flushed(
            files_written(
                old(writer).style(),
                old(writer)@,
                listed_order(texts(files@), sort, times@),
            ),
        ),
{
    match sort {
        Some(sort) => {
            let ghost all = files@;
            let ordered = sort.apply_indexed(files, times);
            proof {
                assert(places(all) =~= texts(all));
                assert(texts(ordered@) =~= listed_order(texts(all), Some(sort), times@));
            }
            write_files(&ordered, writer);
        },
        None => {
            write_files(&files, writer);
        },
    }
    writer.flush();
}

/// The files that are listed of an index, in the order that is asked for.
pub open spec fn indexed_listing(
    paths: Seq<ListedPath>,
    scope: ScopeView,
    named: Seq<char>,
    o: SearchOptionsView,
) -> Seq<Seq<char>> {
    let list = listing(paths, paths.len(), scope, named, o.max_depth);
    listed_order(listed_paths(list), o.sort, listed_times(list))
}

/// Lists the files of an index, and hands the list on.
pub fn write_indexed_file_paths(
    paths: &Vec<ListedPath>,
    scope: &IndexScope,
    named: &str,
    o: &SearchOptions,
    writer: &mut OutputWriter,
)
    requires
        old(writer).wf(),
    ensures
        final(writer).wf(),
        final(writer).style() == old(writer).style(),
        final(writer)@ == old(writer).style().flushed(
            files_written(
                old(writer).style(),
                old(writer)@,
                indexed_listing(paths@, scope@, named@, o@),
            ),
        ),
{
    let (files, times) = select_listed(paths, scope, named, o.max_depth);
    write_listing(files, o.sort, &times, writer);
}

/// Lists a file that was named, where the filters take it.
pub fn write_named_file(path: &str, passes: bool, writer: &mut OutputWriter)
    requires
        old(writer).wf(),
    ensures
        final(writer).wf(),
        final(writer).style() == old(writer).style(),
        final(writer)@ == (if passes {
            old(writer).style().flushed(old(writer).style().file_written(old(writer)@, path@))
        } else {
            old(writer)@
        }),
{
    if passes {
        writer.write_file(path);
        writer.flush();
    }
}

/// A file is listed if and only if its path is below the search root and, where
/// it first occurs, is visible, shallow enough and taken by the filters.
pub proof fn law_listed_files_are_those_that_qualify(
    paths: Seq<ListedPath>,
    n: nat,
    scope: ScopeView,
    named: Seq<char>,
    max_depth: Option<usize>,
    one: ListedView,
)
    requires
        n <= paths.len(),
    ensures
        listing(paths, n, scope, named, max_depth).contains(one) <==> exists|i: int|
            0 <= i < n && #[trigger] listed_as(paths, i, scope, named, max_depth) == Some(one),
    decreases n,
{
    if n > 0 {
        let front = listing(paths, (n - 1) as nat, scope, named, max_depth);
        let all = listing(paths, n, scope, named, max_depth);
        law_listed_files_are_those_that_qualify(
            paths,
            (n - 1) as nat,
            scope,
            named,
            max_depth,
            one,
        );
        if all.contains(one) {
            let k = choose|k: int| 0 <= k < all.len() && all[k] == one;
            if k < front.len() {
                assert(front[k] == one);
                let i = choose|i: int|
                    0 <= i < n - 1 && #[trigger] listed_as(paths, i, scope, named, max_depth)
                        == Some(one);
                assert(listed_as(paths, i, scope, named, max_depth) == Some(one));
            } else {
                assert(listed_as(paths, n - 1, scope, named, max_depth) == Some(one));
            }
        }
        if exists|i: int|
            0 <= i < n && #[trigger] listed_as(paths, i, scope, named, max_depth) == Some(one) {
            let i = choose|i: int|
                0 <= i < n && #[trigger] listed_as(paths, i, scope, named, max_depth) == Some(one);
            if i < n - 1 {
                assert(front.contains(one));
                let k = choose|k: int| 0 <= k < front.len() && front[k] == one;
                assert(all[k] == one);
            } else {
                assert(all.last() == one);
            }
        }
    }
}

/// No file is listed twice.
pub proof fn law_files_are_listed_once(
    paths: Seq<ListedPath>,
    n: nat,
    scope: ScopeView,
    named: Seq<char>,
    max_depth: Option<usize>,
)
    requires
        n <= paths.len(),
    ensures
        listed_paths(listing(paths, n, scope, named, max_depth)).no_duplicates(),
    decreases n,
{
    if n > 0 {
        let front = listing(paths, (n - 1) as nat, scope, named, max_depth);
        law_files_are_listed_once(paths, (n - 1) as nat, scope, named, max_depth);
        if let Some(one) = listed_as(paths, n - 1, scope, named, max_depth) {
            let all = listed_paths(front.push(one));
            assert(all =~= listed_paths(front).push(one.0));
            assert forall|k: int| 0 <= k < front.len() implies (#[trigger] front[k]).0 != one.0 by {
                law_listed_files_are_those_that_qualify(
                    paths,
                    (n - 1) as nat,
                    scope,
                    named,
                    max_depth,
                    front[k],
                );
                assert(front.contains(front[k]));
                let i = choose|i: int|
                    0 <= i < n - 1 && #[trigger] listed_as(paths, i, scope, named, max_depth)
                        == Some(front[k]);
                if front[k].0 == one.0 {
                    lemma_relative_is_told_apart(scope, paths[i].path@, paths[n - 1].path@, named);
                    assert(seen_before(paths, paths[n - 1].path@, n - 1));
                }
            }
            assert forall|a: int, b: int|
                0 <= a < b < all.len() implies all[a] != all[b] by {
                if b == front.len() {
                    assert(front[a].0 != one.0);
                } else {
                    assert(listed_paths(front)[a] != listed_paths(front)[b]);
                }
            }
            assert(all.no_duplicates());
        }
    }
}

} // verus!
