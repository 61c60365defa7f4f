//! The files that a search reads.
//!
//! An index knows paths; which of them take part is decided here, and in what
//! order, from what is known of each file.
use crate::lists::{lemma_filter_map_contains, lemma_filter_map_len};
use crate::meta::FileTime;
use crate::options::{SearchOptions, SearchOptionsView};
use crate::paths::{is_within_depth, with_slashes, within_max_depth, IndexScope, ScopeView};
use crate::sort::{at_places, law_ordering_keeps_every_item, places, slashed_texts, Placed, SortMode};
use crate::text::{lemma_texts_push, owned, replace_char, texts};
use vstd::prelude::*;

verus! {

/// What is known of a file before it is searched.
#[derive(Clone, Copy, Debug, PartialEq, Eq, Structural)]
pub struct FileFacts {
    /// The time it is ordered by, where that is known and asked for.
    pub time: Option<FileTime>,
    /// The globs and the types take it, by its path relative to the search.
    pub passes: bool,
    /// Its size, where that is known.
    pub size: Option<u64>,
    /// It can be read.
    pub readable: bool,
}

/// Whether a file is too large to be searched. A file that was named is exempt
/// from a limit that nobody asked for.
pub open spec fn is_too_large(size: Option<u64>, o: SearchOptionsView, explicit: bool) -> bool {
    !(explicit && !o.max_filesize_requested) && match (o.max_filesize, size) {
        (Some(limit), Some(size)) => size > limit,
        _ => false,
    }
}

/// Whether a file is too large to be searched; its size may be unknown.
pub fn exceeds_max_filesize(size: Option<u64>, o: &SearchOptions, explicit: bool) -> (r: bool)
    ensures
        r == is_too_large(size, o@, explicit),
{
    if explicit && !o.max_filesize_requested {
        return false;
    }
    match (o.max_filesize, size) {
        (Some(limit), Some(size)) => size > limit,
        _ => false,
    }
}

/// Whether a file is read.
pub open spec fn is_read(facts: FileFacts, o: SearchOptionsView, explicit: bool) -> bool {
    facts.passes && !is_too_large(facts.size, o, explicit) && facts.readable
}

/// A file of an index.
pub struct Candidate {
    pub id: u32,
    pub path: String,
    /// Whether the file is visible under the search's rules.
    pub visible: bool,
    pub facts: FileFacts,
}

/// A candidate that belongs to a search, under its path relative to it.
pub struct Selected {
    pub id: u32,
    pub path: String,
    pub facts: FileFacts,
}

/// What a [`Selected`] holds.
pub struct SelectedView {
    pub id: u32,
    pub path: Seq<char>,
    pub facts: FileFacts,
}

impl View for Selected {
    type V = SelectedView;

    open spec fn view(&self) -> SelectedView {
        SelectedView { id: self.id, path: self.path@, facts: self.facts }
    }
}

impl Placed for Selected {
    open spec fn place(&self) -> Seq<char> {
        self.path@
    }

    fn path_text(&self) -> (r: &str) {
        self.path.as_str()
    }

    fn duplicate(&self) -> (r: Self) {
        Selected { id: self.id, path: self.path.clone(), facts: self.facts }
    }
}

/// What a list of selected candidates holds.
pub open spec fn selected_views(list: Seq<Selected>) -> Seq<SelectedView> {
    list.map_values(|s: Selected| s@)
}

/// What a candidate is searched as: only where it is visible, below the search
/// root and shallow enough.
pub open spec fn selected_as(
    c: Candidate,
    scope: ScopeView,
    named: Seq<char>,
    max_depth: Option<usize>,
) -> Option<SelectedView> {
    if !c.visible {
        None
    } else {
        match scope.relative(c.path@, named) {
            Some(rel) => if is_within_depth(rel, max_depth) {
                Some(SelectedView { id: c.id, path: rel, facts: c.facts })
            } else {
                None
            },
            None => None,
        }
    }
}

/// The candidates that belong to a search.
pub open spec fn selection(
    candidates: Seq<Candidate>,
    scope: ScopeView,
    named: Seq<char>,
    max_depth: Option<usize>,
) -> Seq<SelectedView> {
    candidates.filter_map(|c: Candidate| selected_as(c, scope, named, max_depth))
}

/// Takes the candidates that belong to a search, under their paths relative to
/// it.
pub fn select_candidates(
    candidates: &Vec<Candidate>,
    scope: &IndexScope,
    named: &str,
    max_depth: Option<usize>,
) -> (r: Vec<Selected>)
    ensures
        selected_views(r@) == selection(candidates@, scope@, named@, max_depth),
{
    let mut out: Vec<Selected> = Vec::new();
    let ghost f = |c: Candidate| selected_as(c, scope@, named@, max_depth);
    let mut i: usize = 0;
    assert(selected_views(out@) =~= candidates@.take(0).filter_map(f));
    while i < candidates.len()
        invariant
            i <= candidates@.len(),
            f == (|c: Candidate| selected_as(c, scope@, named@, max_depth)),
            selected_views(out@) == candidates@.take(i as int).filter_map(f),
        decreases candidates@.len() - i,
    {
        let c = &candidates[i];
        let ghost before = selected_views(out@);
        assert(candidates@.take(i + 1).drop_last() =~= candidates@.take(i as int));
        assert(candidates@.take(i + 1).last() == *c);
        if c.visible {
            if let Some(rel) = scope.relativize(c.path.as_str(), named) {
                if within_max_depth(rel.as_str(), max_depth) {
                    let one = Selected { id: c.id, path: rel, facts: c.facts };
                    let ghost entry = one@;
                    out.push(one);
                    assert(selected_views(out@) =~= before + seq![entry]);
                }
            }
        }
        i += 1;
    }
    assert(candidates@.take(candidates@.len() as int) =~= candidates@);
    out
}

/// The paths of selected candidates.
pub open spec fn selected_paths(list: Seq<SelectedView>) -> Seq<Seq<char>> {
    list.map_values(|s: SelectedView| s.path)
}

/// The times of selected candidates.
pub open spec fn selected_times(list: Seq<SelectedView>) -> Seq<Option<FileTime>> {
    list.map_values(|s: SelectedView| s.facts.time)
}

/// Selected candidates in the order in which they are searched.
pub open spec fn search_order(list: Seq<SelectedView>, sort: Option<SortMode>) -> Seq<
    SelectedView,
> {
    match sort {
        Some(sort) => at_places(list, sort.order_of(selected_paths(list), selected_times(list))),
        None => list,
    }
}

/// The path under which a selected candidate is read, if it is.
pub open spec fn path_read(
    s: SelectedView,
    o: SearchOptionsView,
    explicit: bool,
) -> Option<Seq<char>> {
    if is_read(s.facts, o, explicit) {
        Some(s.path)
    } else {
        None
    }
}

/// The files that a search reads of an index, in order. A search root that is a
/// file was named.
pub open spec fn candidates_read(
    candidates: Seq<Candidate>,
    scope: ScopeView,
    named: Seq<char>,
    o: SearchOptionsView,
) -> Seq<Seq<char>> {
    search_order(selection(candidates, scope, named, o.max_depth), o.sort).filter_map(
        |s: SelectedView| path_read(s, o, scope is File),
    )
}

/// The files that a search reads of an index.
pub struct ToRead {
    /// Their paths relative to the search, in order.
    pub files: Vec<String>,
    /// How many candidates belonged to the search.
    pub candidates: usize,
}

fn times_of(list: &Vec<Selected>) -> (r: Vec<Option<FileTime>>)
    ensures
        r@ == selected_times(selected_views(list@)),
{
    let mut out: Vec<Option<FileTime>> = Vec::new();
    let mut i: usize = 0;
    while i < list.len()
        invariant
            i <= list@.len(),
            out@.len() == i,
            forall|k: int| 0 <= k < i ==> #[trigger] out@[k] == list@[k].facts.time,
        decreases list@.len() - i,
    {
        out.push(list[i].facts.time);
        i += 1;
    }
    assert(out@ =~= selected_times(selected_views(list@)));
    out
}

fn order_selected(list: Vec<Selected>, sort: Option<SortMode>) -> (r: Vec<Selected>)
    ensures
        selected_views(r@) == search_order(selected_views(list@), sort),
{
    match sort {
        Some(sort) => {
            let ghost all = list@;
            let times = times_of(&list);
            let r = sort.apply_indexed(list, &times);
            proof {
                assert(places(all) =~= selected_paths(selected_views(all)));
                assert(selected_views(r@) =~= search_order(selected_views(all), Some(sort)));
            }
            r
        },
        None => list,
    }
}

/// Chooses the files that a search reads of an index: those candidates that are
/// visible, below the search root and shallow enough, in the order that is
/// asked for, but for those that the filters leave out, that are too large or
/// that cannot be read.
pub fn files_to_read(
    candidates: &Vec<Candidate>,
    scope: &IndexScope,
    named: &str,
    o: &SearchOptions,
) -> (r: ToRead)
    ensures
        texts(r.files@) == candidates_read(candidates@, scope@, named@, o@),
        r.candidates == selection(candidates@, scope@, named@, o@.max_depth).len(),
{
    let selected = select_candidates(candidates, scope, named, o.max_depth);
    let count: usize = selected.len();
    assert(selected_views(selected@).len() == count);
    let explicit = match scope {
        IndexScope::File(_) => true,
        _ => false,
    };
    let list = order_selected(selected, o.sort);
    let ghost all = selected_views(list@);
    let ghost f = |s: SelectedView| path_read(s, o@, scope@ is File);
    let mut files: Vec<String> = Vec::new();
    let mut i: usize = 0;
    assert(texts(files@) =~= all.take(0).filter_map(f));
    while i < list.len()
        invariant
            i <= list@.len(),
            all == selected_views(list@),
            explicit == scope@ is File,
            f == (|s: SelectedView| path_read(s, o@, scope@ is File)),
            texts(files@) == all.take(i as int).filter_map(f),
        decreases list@.len() - i,
    {
        let s = &list[i];
        assert(all.take(i + 1).drop_last() =~= all.take(i as int));
        assert(all.take(i + 1).last() == s@);
        if s.facts.passes && !exceeds_max_filesize(s.facts.size, o, explicit) && s.facts.readable {
            let path = owned(s.path.as_str());
            let ghost before = texts(files@);
            proof {
                lemma_texts_push(files@, path);
                assert(before.push(path@) =~= before + seq![path@]);
            }
            files.push(path);
        }
        i += 1;
    }
    assert(all.take(all.len() as int) =~= all);
    ToRead { files, candidates: count }
}

/// A file that a walk found. The walk has left out what is too large.
pub struct WalkedFile {
    /// Its path, as the platform writes it.
    pub path: String,
    /// Its path below the search root, where it is below.
    pub below: Option<String>,
    pub facts: FileFacts,
}

/// What a [`WalkedFile`] holds.
pub struct WalkedView {
    pub path: Seq<char>,
    pub below: Option<Seq<char>>,
    pub facts: FileFacts,
}

impl View for WalkedFile {
    type V = WalkedView;

    open spec fn view(&self) -> WalkedView {
        WalkedView {
            path: self.path@,
            below: crate::snapshot_diff::option_text(self.below),
            facts: self.facts,
        }
    }
}

impl Placed for WalkedFile {
    open spec fn place(&self) -> Seq<char> {
        self.path@
    }

    fn path_text(&self) -> (r: &str) {
        self.path.as_str()
    }

    fn duplicate(&self) -> (r: Self) {
        WalkedFile { path: self.path.clone(), below: self.below.clone(), facts: self.facts }
    }
}

/// What a list of walked files holds.
pub open spec fn walked_views(list: Seq<WalkedFile>) -> Seq<WalkedView> {
    list.map_values(|f: WalkedFile| f@)
}

/// Walked files in the order in which they are searched.
pub open spec fn walk_order(
    list: Seq<WalkedView>,
    sort: Option<SortMode>,
    separator: char,
) -> Seq<WalkedView> {
    match sort {
        Some(sort) => at_places(
            list,
            sort.order_of(
                slashed_texts(list.map_values(|f: WalkedView| f.path), separator),
                list.map_values(|f: WalkedView| f.facts.time),
            ),
        ),
        None => list,
    }
}

/// The path under which a walked file is read, if it is.
pub open spec fn walked_as(f: WalkedView) -> Option<Seq<char>> {
    if f.facts.passes && f.facts.readable {
        Some(
            with_slashes(
                match f.below {
                    Some(below) => below,
                    None => f.path,
                },
                '\\',
            ),
        )
    } else {
        None
    }
}

/// The files that a search reads of those that a walk found, in order.
pub open spec fn walked_read(
    list: Seq<WalkedView>,
    sort: Option<SortMode>,
    separator: char,
) -> Seq<Seq<char>> {
    walk_order(list, sort, separator).filter_map(|f: WalkedView| walked_as(f))
}

fn order_walked(list: Vec<WalkedFile>, sort: Option<SortMode>, separator: char) -> (r: Vec<
    WalkedFile,
>)
    ensures
        walked_views(r@) == walk_order(walked_views(list@), sort, separator),
{
    let sort = match sort {
        Some(sort) => sort,
        None => {
            return list;
        },
    };
    let ghost all = list@;
    let mut times: Vec<Option<FileTime>> = Vec::new();
    let mut i: usize = 0;
    while i < list.len()
        invariant
            i <= list@.len(),
            times@.len() == i,
            forall|k: int| 0 <= k < i ==> #[trigger] times@[k] == list@[k].facts.time,
        decreases list@.len() - i,
    {
        times.push(list[i].facts.time);
        i += 1;
    }
    let r = sort.apply(list, &times, separator);
    proof {
        let views = walked_views(all);
        assert(times@ =~= views.map_values(|f: WalkedView| f.facts.time));
        assert(places(all) =~= views.map_values(|f: WalkedView| f.path));
        assert(walked_views(r@) =~= walk_order(views, Some(sort), separator));
    }
    r
}

/// Chooses the files that a search reads of those that a walk found: in the
/// order that is asked for, but for those that the filters leave out or that
/// cannot be read. The platform separates paths by `separator` or by slashes.
pub fn walked_to_read(list: Vec<WalkedFile>, sort: Option<SortMode>, separator: char) -> (r: Vec<
    String,
>)
    ensures
        texts(r@) == walked_read(walked_views(list@), sort, separator),
{
    let list = order_walked(list, sort, separator);
    let ghost all = walked_views(list@);
    let ghost f = |f: WalkedView| walked_as(f);
    let mut files: Vec<String> = Vec::new();
    let mut i: usize = 0;
    assert(texts(files@) =~= all.take(0).filter_map(f));
    while i < list.len()
        invariant
            i <= list@.len(),
            all == walked_views(list@),
            f == (|f: WalkedView| walked_as(f)),
            texts(files@) == all.take(i as int).filter_map(f),
        decreases list@.len() - i,
    {
        let file = &list[i];
        assert(all.take(i + 1).drop_last() =~= all.take(i as int));
        assert(all.take(i + 1).last() == file@);
        if file.facts.passes && file.facts.readable {
            let path = match &file.below {
                Some(below) => replace_char(below.as_str(), '\\', '/'),
                None => replace_char(file.path.as_str(), '\\', '/'),
            };
            let ghost before = texts(files@);
            proof {
                lemma_texts_push(files@, path);
                assert(before.push(path@) =~= before + seq![path@]);
            }
            files.push(path);
        }
        i += 1;
    }
    assert(all.take(all.len() as int) =~= all);
    files
}

/// Whether a file that was named is read. Where it then cannot be, the search
/// fails.
pub fn reads_named_file(passes: bool, size: Option<u64>, o: &SearchOptions) -> (r: bool)
    ensures
        r == (passes && !is_too_large(size, o@, true)),
{
    passes && !exceeds_max_filesize(size, o, true)
}

/// A file that was named is never dropped by a limit that nobody asked for.
pub proof fn law_named_files_escape_an_inherited_limit(size: Option<u64>, o: SearchOptionsView)
    requires
        !o.max_filesize_requested,
    ensures
        !is_too_large(size, o, true),
{
}

/// A file of an index is read if and only if it is visible, below the search
/// root, shallow enough, taken by the filters, not too large and readable,
/// whatever the order.
pub proof fn law_files_read_are_those_that_qualify(
    candidates: Seq<Candidate>,
    scope: ScopeView,
    named: Seq<char>,
    o: SearchOptionsView,
    path: Seq<char>,
)
    requires
        candidates.len() <= usize::MAX,
    ensures
        candidates_read(candidates, scope, named, o).contains(path) <==> exists|i: int|
            0 <= i < candidates.len() && (selected_as(
                #[trigger] candidates[i],
                scope,
                named,
                o.max_depth,
            ) matches Some(s) && s.path == path && is_read(s.facts, o, scope is File)),
{
    let f = |c: Candidate| selected_as(c, scope, named, o.max_depth);
    let g = |s: SelectedView| path_read(s, o, scope is File);
    let list = selection(candidates, scope, named, o.max_depth);
    let ordered = search_order(list, o.sort);
    lemma_filter_map_len(candidates, f);
    lemma_filter_map_contains(ordered, g, path);
    if ordered.filter_map(g).contains(path) {
        let k = choose|k: int| 0 <= k < ordered.len() && g(#[trigger] ordered[k]) == Some(path);
        let s = ordered[k];
        assert(ordered.contains(s));
        if let Some(sort) = o.sort {
            law_ordering_keeps_every_item(
                sort,
                list,
                selected_paths(list),
                selected_times(list),
                s,
            );
        }
        lemma_filter_map_contains(candidates, f, s);
        let i = choose|i: int| 0 <= i < candidates.len() && f(#[trigger] candidates[i]) == Some(s);
        assert(selected_as(candidates[i], scope, named, o.max_depth) == Some(s));
    }
    if exists|i: int|
        0 <= i < candidates.len() && (selected_as(
            #[trigger] candidates[i],
            scope,
            named,
            o.max_depth,
        ) matches Some(s) && s.path == path && is_read(s.facts, o, scope is File)) {
        let i = choose|i: int|
            0 <= i < candidates.len() && (selected_as(
                #[trigger] candidates[i],
                scope,
                named,
                o.max_depth,
            ) matches Some(s) && s.path == path && is_read(s.facts, o, scope is File));
        let s = selected_as(candidates[i], scope, named, o.max_depth)->0;
        assert(f(candidates[i]) == Some(s));
        lemma_filter_map_contains(candidates, f, s);
        if let Some(sort) = o.sort {
            law_ordering_keeps_every_item(
                sort,
                list,
                selected_paths(list),
                selected_times(list),
                s,
            );
        }
        let k = choose|k: int| 0 <= k < ordered.len() && ordered[k] == s;
        assert(g(ordered[k]) == Some(path));
    }
}

} // verus!
