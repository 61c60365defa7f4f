//! What holds of every diff, and which files a diff has to read.
use crate::lists::{lemma_filter_contains, lemma_filter_map_contains};
use crate::snapshot::{EntryView, Snapshot, SnapshotView};
use crate::snapshot_diff::{
    change_report, change_views, changed_by_metadata, content_change, hash_at, is_cleared,
    list_changed, list_only_in, lone_report, metadata_change, not_cleared, only_in, option_text,
    pair_renames, rename_sources, renames, shared, suspects, target_hashes, verified, Change,
    ChangeView, Evidence, Verify,
};
use crate::snapshot_file::{
    all_storable, law_read_gives_back_what_was_written, parse_snapshot, snapshot_bytes,
};
use crate::snapshot_store::{hashed_files, observed_files, ObservedFile};
use crate::snapshot_tools::{
    counted, diff_tree, differences, law_counts_are_of_all_changes, DiffOptions, DiffOptionsView,
};
use crate::state::McpState;
use crate::text::{lemma_texts_push, owned, texts};
use vstd::prelude::*;

verus! {

/// The paths of changes.
pub open spec fn paths_of(changes: Seq<ChangeView>) -> Seq<Seq<char>> {
    changes.map_values(|c: ChangeView| c.path)
}

/// The files whose content a diff of a live tree compares: those that metadata
/// alone flags, or every shared one, and for renames the added ones. Nothing
/// is read where the base has nothing to compare with.
pub open spec fn wanted_hashes(
    base: SnapshotView,
    base_paths: Seq<Seq<char>>,
    target: SnapshotView,
    paths: Seq<Seq<char>>,
    options: DiffOptionsView,
) -> Seq<Seq<char>> {
    let flagged = changed_by_metadata(paths, base.files, target.files, options.prefix);
    let added = only_in(paths, target.files, base.files, options.prefix);
    let deleted = only_in(base_paths, base.files, target.files, options.prefix);
    if options.target is Some || !base.has_hashes {
        Seq::empty()
    } else {
        (match options.verify {
            Verify::Off => Seq::empty(),
            Verify::Suspect => paths_of(suspects(flagged)),
            Verify::All => paths.filter(
                |p: Seq<char>| shared(base.files, target.files, options.prefix, p),
            ),
        }) + (if options.detect_renames && added.len() > 0 && deleted.len() > 0 {
            paths_of(added)
        } else {
            Seq::empty()
        })
    }
}

fn push_paths(out: Vec<String>, changes: &Vec<Change>, suspects_only: bool) -> (r: Vec<String>)
    ensures
        texts(r@) == texts(out@) + paths_of(
            if suspects_only {
                suspects(change_views(changes@))
            } else {
                change_views(changes@)
            },
        ),
{
    let mut out = out;
    let ghost start = texts(out@);
    let ghost all = change_views(changes@);
    let ghost p = |c: ChangeView| c.evidence != Evidence::Size;
    let ghost q = |c: ChangeView| true;
    let mut i: usize = 0;
    proof {
        reveal(Seq::filter);
        assert(start + paths_of(all.take(0).filter(p)) =~= start);
        assert(start + paths_of(all.take(0)) =~= start);
    }
    while i < changes.len()
        invariant
            i <= changes@.len(),
            all == change_views(changes@),
            p == (|c: ChangeView| c.evidence != Evidence::Size),
            texts(out@) == start + paths_of(
                if suspects_only {
                    all.take(i as int).filter(p)
                } else {
                    all.take(i as int)
                },
            ),
        decreases changes@.len() - i,
    {
        let ghost c = changes@[i as int]@;
        proof {
            reveal(Seq::filter);
            assert(all.take(i + 1).drop_last() =~= all.take(i as int));
            assert(all.take(i + 1).last() == c);
            let done = all.take(i as int).filter(p);
            assert(start + paths_of(done.push(c)) =~= (start + paths_of(done)).push(c.path));
            assert(start + paths_of(all.take(i + 1)) =~= (start + paths_of(
                all.take(i as int),
            )).push(c.path));
        }
        if !suspects_only || changes[i].evidence != Evidence::Size {
            let path = changes[i].path.clone();
            proof {
                lemma_texts_push(out@, path);
            }
            out.push(path);
        }
        i += 1;
    }
    assert(all.take(all.len() as int) =~= all);
    out
}

fn shared_paths(base: &Snapshot, target: &Snapshot, prefix: &Option<String>) -> (r: Vec<String>)
    requires
        base.wf(),
        target.wf(),
    ensures
        texts(r@) == target.files.keys().filter(
            |p: Seq<char>| shared(base@.files, target@.files, option_text(*prefix), p),
        ),
{
    let mut out: Vec<String> = Vec::new();
    let ghost keys = target.files.keys();
    let ghost wants = option_text(*prefix);
    let ghost p = |x: Seq<char>| shared(base@.files, target@.files, wants, x);
    let total: usize = target.files.len();
    let mut i: usize = 0;
    proof {
        reveal(Seq::filter);
        assert(texts(out@) =~= keys.take(0).filter(p));
    }
    while i < total
        invariant
            i <= total,
            base.wf(),
            target.wf(),
            keys == target.files.keys(),
            total == keys.len(),
            wants == option_text(*prefix),
            p == (|x: Seq<char>| shared(base@.files, target@.files, wants, x)),
            texts(out@) == keys.take(i as int).filter(p),
        decreases total - i,
    {
        let path = target.files.key_at(i);
        let _ = target.files.value_at(i);
        proof {
            reveal(Seq::filter);
            assert(keys.take(i + 1).drop_last() =~= keys.take(i as int));
            assert(keys.take(i + 1).last() == path@);
        }
        if crate::snapshot_diff::keep(prefix, path) && base.files.contains_key(path) {
            let copy = owned(path);
            proof {
                lemma_texts_push(out@, copy);
            }
            out.push(copy);
        }
        i += 1;
    }
    assert(keys.take(total as int) =~= keys);
    out
}

/// The files whose content a diff has to read.
pub fn paths_to_hash(base: &Snapshot, target: &Snapshot, options: &DiffOptions) -> (r: Vec<String>)
    requires
        base.wf(),
        target.wf(),
    ensures
        texts(r@) == wanted_hashes(
            base@,
            base.files.keys(),
            target@,
            target.files.keys(),
            options@,
        ),
{
    let mut out: Vec<String> = Vec::new();
    assert(texts(out@) =~= Seq::<Seq<char>>::empty());
    if options.target.is_some() || !base.has_hashes {
        return out;
    }
    match options.verify {
        Verify::Off => {},
        Verify::Suspect => {
            let flagged = list_changed(&base.files, &target.files, &options.prefix);
            out = push_paths(out, &flagged, true);
            assert(texts(out@) =~= paths_of(suspects(change_views(flagged@))));
        },
        Verify::All => {
            out = shared_paths(base, target, &options.prefix);
        },
    }
    let ghost head = texts(out@);
    assert(head + Seq::<Seq<char>>::empty() =~= head);
    if options.detect_renames {
        let added = list_only_in(&target.files, &base.files, &options.prefix);
        let deleted = list_only_in(&base.files, &target.files, &options.prefix);
        if added.len() > 0 && deleted.len() > 0 {
            out = push_paths(out, &added, false);
        }
    }
    out
}

/// Every compared path is told apart by where it is: added files are those
/// that only the target holds, deleted ones those that only the base holds,
/// and modified ones those that both hold and metadata tells apart. So no path
/// is reported twice, and none is missed.
pub proof fn law_differences_are_complete_and_disjoint(
    base: SnapshotView,
    base_paths: Seq<Seq<char>>,
    target: SnapshotView,
    paths: Seq<Seq<char>>,
    prefix: Option<Seq<char>>,
    path: Seq<char>,
)
    requires
        forall|p: Seq<char>| #[trigger] base.files.contains_key(p) <==> base_paths.contains(p),
        forall|p: Seq<char>| #[trigger] target.files.contains_key(p) <==> paths.contains(p),
    ensures
        ({
            let inside = crate::snapshot_diff::in_scope(prefix, path);
            let b = base.files.contains_key(path);
            let t = target.files.contains_key(path);
            let added = only_in(paths, target.files, base.files, prefix);
            let deleted = only_in(base_paths, base.files, target.files, prefix);
            let modified = changed_by_metadata(paths, base.files, target.files, prefix);
            &&& paths_of(added).contains(path) <==> inside && t && !b
            &&& paths_of(deleted).contains(path) <==> inside && b && !t
            &&& paths_of(modified).contains(path) <==> inside && b && t && metadata_change(
                base.files[path],
                target.files[path],
            ) is Some
        }),
{
    let a = |p: Seq<char>| lone_report(target.files, base.files, prefix, p);
    let d = |p: Seq<char>| lone_report(base.files, target.files, prefix, p);
    let m = |p: Seq<char>|
        change_report(
            base.files,
            target.files,
            prefix,
            p,
            metadata_change(base.files[p], target.files[p]),
        );
    assert(base.files.contains_key(path) <==> base_paths.contains(path));
    assert(target.files.contains_key(path) <==> paths.contains(path));
    lemma_reported(paths, a, path);
    lemma_reported(base_paths, d, path);
    lemma_reported(paths, m, path);
}

/// A path is reported where it is in the list and there is a report of it,
/// when every report is of its own path.
proof fn lemma_reported(
    paths: Seq<Seq<char>>,
    f: spec_fn(Seq<char>) -> Option<ChangeView>,
    path: Seq<char>,
)
    requires
        forall|p: Seq<char>| #[trigger] f(p) matches Some(c) ==> c.path == p,
    ensures
        paths_of(paths.filter_map(f)).contains(path) <==> paths.contains(path) && f(path) is Some,
{
    let all = paths.filter_map(f);
    if paths_of(all).contains(path) {
        let k = choose|k: int| 0 <= k < paths_of(all).len() && paths_of(all)[k] == path;
        let c = all[k];
        assert(all.contains(c));
        lemma_filter_map_contains(paths, f, c);
        let i = choose|i: int| 0 <= i < paths.len() && f(#[trigger] paths[i]) == Some(c);
        assert(paths[i] == path);
    }
    if paths.contains(path) && f(path) is Some {
        let c = f(path)->0;
        let i = choose|i: int| 0 <= i < paths.len() && paths[i] == path;
        assert(f(paths[i]) == Some(c));
        lemma_filter_map_contains(paths, f, c);
        let k = choose|k: int| 0 <= k < all.len() && all[k] == c;
        assert(paths_of(all)[k] == path);
    }
}

/// Whether two observations hold the same paths with the same metadata, whatever
/// is known of content.
pub open spec fn same_metadata(
    a: Map<Seq<char>, EntryView>,
    b: Map<Seq<char>, EntryView>,
) -> bool {
    &&& forall|p: Seq<char>| #[trigger] a.contains_key(p) <==> b.contains_key(p)
    &&& forall|p: Seq<char>| #[trigger]
        a.contains_key(p) ==> a[p].size == b[p].size && a[p].mtime == b[p].mtime && a[p].digest
            == b[p].digest
}

/// Two observations of an unchanged tree show no difference, whether content
/// was recorded in either or not; where content is compared, it has to be
/// unchanged too.
pub proof fn law_unchanged_tree_shows_no_difference(
    base: SnapshotView,
    base_paths: Seq<Seq<char>>,
    target: SnapshotView,
    paths: Seq<Seq<char>>,
    options: DiffOptionsView,
    read: Map<Seq<char>, Seq<u8>>,
)
    requires
        same_metadata(base.files, target.files),
        options.verify == Verify::All ==> forall|p: Seq<char>|
            {
                let now = #[trigger] hash_at(
                    target_hashes(target, options.target is None, read),
                    p,
                );
                now is Some && base.files.contains_key(p) && base.files[p].hash is Some ==> now
                    == base.files[p].hash
            },
    ensures
        ({
            let d = differences(base, base_paths, target, paths, options, read);
            &&& d.added.len() == 0
            &&& d.modified.len() == 0
            &&& d.deleted.len() == 0
            &&& d.renamed.len() == 0
        }),
{
    let prefix = options.prefix;
    let hashes = target_hashes(target, options.target is None, read);
    let a = |p: Seq<char>| lone_report(target.files, base.files, prefix, p);
    let d = |p: Seq<char>| lone_report(base.files, target.files, prefix, p);
    let m = |p: Seq<char>|
        change_report(
            base.files,
            target.files,
            prefix,
            p,
            metadata_change(base.files[p], target.files[p]),
        );
    let c = |p: Seq<char>|
        change_report(
            base.files,
            target.files,
            prefix,
            p,
            content_change(base.files[p], target.files[p], hash_at(hashes, p)),
        );
    assert forall|i: int| 0 <= i < paths.len() implies a(#[trigger] paths[i]) is None && m(
        paths[i],
    ) is None by {
        assert(base.files.contains_key(paths[i]) <==> target.files.contains_key(paths[i]));
    }
    assert forall|i: int| 0 <= i < base_paths.len() implies d(#[trigger] base_paths[i]) is None by {
        assert(base.files.contains_key(base_paths[i]) <==> target.files.contains_key(
            base_paths[i],
        ));
    }
    lemma_nothing_reported(paths, a);
    lemma_nothing_reported(base_paths, d);
    lemma_nothing_reported(paths, m);
    if options.verify == Verify::All {
        assert forall|i: int| 0 <= i < paths.len() implies c(#[trigger] paths[i]) is None by {
            let now = hash_at(hashes, paths[i]);
            assert(base.files.contains_key(paths[i]) <==> target.files.contains_key(paths[i]));
        }
        lemma_nothing_reported(paths, c);
    }
    let flagged = changed_by_metadata(paths, base.files, target.files, prefix);
    reveal(Seq::filter);
    assert(not_cleared(flagged, base.files, hashes).len() == 0);
    assert(only_in(paths, target.files, base.files, prefix).len() == 0);
    assert(only_in(base_paths, base.files, target.files, prefix).len() == 0);
}

/// What a snapshot records of the files that a walk saw, with the hashes of
/// their content where those were read.
pub open spec fn recorded(
    files: Seq<ObservedFile>,
    hashes: Option<Map<Seq<char>, Seq<u8>>>,
) -> Map<Seq<char>, EntryView> {
    match hashes {
        Some(h) => hashed_files(observed_files(files), h),
        None => observed_files(files),
    }
}

/// A tree that did not change since a snapshot of it shows no difference to it,
/// with content hashes or without, and with ignore rules or without: the
/// snapshot is read back as it was recorded, the tree is walked by the same
/// rules, and where the walk sees the same files nothing is added, modified,
/// deleted or renamed. Where content is compared, it has to be what was
/// recorded.
pub proof fn law_a_tree_is_unchanged_since_its_snapshot(
    state: McpState,
    files: Seq<ObservedFile>,
    no_ignore: bool,
    hashes: Option<Map<Seq<char>, Seq<u8>>>,
    base: Snapshot,
    target: SnapshotView,
    paths: Seq<Seq<char>>,
    options: DiffOptionsView,
    read: Map<Seq<char>, Seq<u8>>,
    now: u64,
    elapsed_ms: u64,
)
    requires
        base.wf(),
        all_storable(base@),
        base.files.keys().len() <= u64::MAX,
        base@.files == recorded(files, hashes),
        base@.no_ignore == no_ignore,
        base@.has_hashes == (hashes is Some),
        target.files == observed_files(files),
        options.target is None,
        options.verify == Verify::All && hashes is Some ==> forall|p: Seq<char>| #[trigger]
            read.contains_key(p) && hashes->0.contains_key(p) ==> read[p] == hashes->0[p],
    ensures
        ({
            let stored = snapshot_bytes(base@, base.files.keys());
            let again = parse_snapshot(stored, base.id@);
            &&& again matches Ok(b) && b == base@ && state.walk_for(b.no_ignore)
                == state.walk_for(no_ignore)
            &&& ({
                let d = differences(base@, base.files.keys(), target, paths, options, read);
                let answer = diff_tree(base@, target, options, d, now, elapsed_ms);
                &&& d.added.len() == 0
                &&& d.modified.len() == 0
                &&& d.deleted.len() == 0
                &&& d.renamed.len() == 0
                &&& counted(answer, "added"@) == Some(0u64)
                &&& counted(answer, "modified"@) == Some(0u64)
                &&& counted(answer, "deleted"@) == Some(0u64)
                &&& counted(answer, "renamed"@) == Some(0u64)
            })
        }),
{
    let stored = snapshot_bytes(base@, base.files.keys());
    law_read_gives_back_what_was_written(base, Seq::empty());
    assert(stored + Seq::<u8>::empty() =~= stored);
    let current = target_hashes(target, true, read);
    if options.verify == Verify::All {
        assert forall|p: Seq<char>|
            {
                let found = #[trigger] hash_at(current, p);
                found is Some && base@.files.contains_key(p) && base@.files[p].hash is Some
                    ==> found == base@.files[p].hash
            } by {
            lemma_observed_files_have_no_hash(files, p);
        }
    }
    law_unchanged_tree_shows_no_difference(
        base@,
        base.files.keys(),
        target,
        paths,
        options,
        read,
    );
    let d = differences(base@, base.files.keys(), target, paths, options, read);
    law_counts_are_of_all_changes(base@, target, options, d, now, elapsed_ms);
}

/// A walk reads no content.
proof fn lemma_observed_files_have_no_hash(files: Seq<ObservedFile>, path: Seq<char>)
    ensures
        observed_files(files).contains_key(path) ==> observed_files(files)[path].hash is None,
    decreases files.len(),
{
    if files.len() > 0 {
        lemma_observed_files_have_no_hash(files.drop_last(), path);
    }
}

proof fn lemma_nothing_reported<B>(paths: Seq<Seq<char>>, f: spec_fn(Seq<char>) -> Option<B>)
    requires
        forall|i: int| 0 <= i < paths.len() ==> f(#[trigger] paths[i]) is None,
    ensures
        paths.filter_map(f).len() == 0,
    decreases paths.len(),
{
    if paths.len() > 0 {
        let front = paths.drop_last();
        assert forall|i: int| 0 <= i < front.len() implies f(#[trigger] front[i]) is None by {
            assert(front[i] == paths[i]);
        }
        lemma_nothing_reported(front, f);
        assert(f(paths[paths.len() - 1]) is None);
    }
}

/// Verifying suspects removes entries and adds none: what it reports, metadata
/// reported too, and a change of size is never removed.
pub proof fn law_suspect_verification_only_removes(
    base: SnapshotView,
    target: SnapshotView,
    paths: Seq<Seq<char>>,
    prefix: Option<Seq<char>>,
    live: bool,
    read: Map<Seq<char>, Seq<u8>>,
    change: ChangeView,
)
    ensures
        ({
            let flagged = changed_by_metadata(paths, base.files, target.files, prefix);
            let kept = verified(base, target, paths, prefix, Verify::Suspect, live, read).0;
            &&& kept.contains(change) ==> flagged.contains(change)
            &&& flagged.contains(change) && change.evidence == Evidence::Size ==> kept.contains(
                change,
            )
        }),
{
    let flagged = changed_by_metadata(paths, base.files, target.files, prefix);
    let hashes = target_hashes(target, live, read);
    lemma_filter_contains(
        flagged,
        |c: ChangeView| !is_cleared(c, base.files, hashes),
        change,
    );
}

/// How much is listed does not change what is counted.
pub proof fn law_listing_less_counts_the_same(
    base: SnapshotView,
    base_paths: Seq<Seq<char>>,
    target: SnapshotView,
    paths: Seq<Seq<char>>,
    options: DiffOptionsView,
    read: Map<Seq<char>, Seq<u8>>,
    other: nat,
)
    ensures
        differences(base, base_paths, target, paths, options, read) == differences(
            base,
            base_paths,
            target,
            paths,
            DiffOptionsView { max_entries: other, ..options },
            read,
        ),
{
}

/// Whether every source has the hash it is kept under and was deleted.
spec fn are_sources(
    sources: Map<Seq<u8>, Seq<char>>,
    deleted: Seq<ChangeView>,
    base: Map<Seq<char>, EntryView>,
) -> bool {
    forall|h: Seq<u8>| #[trigger]
        sources.contains_key(h) ==> base.contains_key(sources[h]) && base[sources[h]].hash == Some(h)
            && paths_of(deleted).contains(sources[h])
}

proof fn lemma_sources(deleted: Seq<ChangeView>, base: Map<Seq<char>, EntryView>)
    ensures
        are_sources(rename_sources(deleted, base), deleted, base),
    decreases deleted.len(),
{
    if deleted.len() > 0 {
        let front = deleted.drop_last();
        lemma_sources(front, base);
        let before = rename_sources(front, base);
        let now = rename_sources(deleted, base);
        assert forall|h: Seq<u8>| #[trigger] now.contains_key(h) implies base.contains_key(now[h])
            && base[now[h]].hash == Some(h) && paths_of(deleted).contains(now[h]) by {
            let path = deleted.last().path;
            if base.contains_key(path) && base[path].hash == Some(h) {
                assert(paths_of(deleted)[deleted.len() - 1] == path);
            } else {
                assert(before.contains_key(h));
                let k = choose|k: int|
                    0 <= k < paths_of(front).len() && paths_of(front)[k] == before[h];
                assert(paths_of(deleted)[k] == before[h]);
            }
        }
    }
}

proof fn lemma_pairs(
    added: Seq<ChangeView>,
    read: Map<Seq<char>, Seq<u8>>,
    sources: Map<Seq<u8>, Seq<char>>,
)
    ensures
        ({
            let (pairs, left) = pair_renames(added, read, sources);
            &&& forall|h: Seq<u8>| #[trigger]
                left.contains_key(h) ==> sources.contains_key(h) && left[h] == sources[h]
            &&& forall|i: int|
                0 <= i < pairs.len() ==> {
                    let to = (#[trigger] pairs[i]).1;
                    read.contains_key(to) && sources.contains_key(read[to]) && sources[read[to]]
                        == pairs[i].0 && !left.contains_key(read[to]) && paths_of(added).contains(
                        to,
                    )
                }
            &&& forall|i: int, j: int|
                0 <= i < j < pairs.len() ==> read[(#[trigger] pairs[i]).1] != read[(
                #[trigger] pairs[j]).1]
        }),
    decreases added.len(),
{
    if added.len() > 0 {
        let front = added.drop_last();
        lemma_pairs(front, read, sources);
        let (before, was) = pair_renames(front, read, sources);
        let (pairs, left) = pair_renames(added, read, sources);
        assert forall|i: int| 0 <= i < pairs.len() implies {
            let to = (#[trigger] pairs[i]).1;
            read.contains_key(to) && sources.contains_key(read[to]) && sources[read[to]]
                == pairs[i].0 && !left.contains_key(read[to]) && paths_of(added).contains(to)
        } by {
            if i < before.len() {
                assert(pairs[i] == before[i]);
                let to = before[i].1;
                let k = choose|k: int| 0 <= k < paths_of(front).len() && paths_of(front)[k] == to;
                assert(paths_of(added)[k] == to);
            } else {
                assert(paths_of(added)[added.len() - 1] == added.last().path);
            }
        }
        assert forall|i: int, j: int| 0 <= i < j < pairs.len() implies read[(
        #[trigger] pairs[i]).1] != read[(#[trigger] pairs[j]).1] by {
            assert(pairs[i] == before[i]);
            if j < before.len() {
                assert(pairs[j] == before[j]);
            } else {
                assert(!was.contains_key(read[before[i].1]));
            }
        }
    }
}

/// Every rename pairs a deleted file with an added one that carries the same
/// content, and neither a deleted nor an added file is paired twice.
pub proof fn law_renames_pair_equal_content(
    added: Seq<ChangeView>,
    deleted: Seq<ChangeView>,
    base: SnapshotView,
    live: bool,
    read: Map<Seq<char>, Seq<u8>>,
)
    ensures
        ({
            let renamed = renames(added, deleted, base, live, read);
            &&& forall|i: int|
                0 <= i < renamed.len() ==> {
                    let (from, to) = #[trigger] renamed[i];
                    paths_of(deleted).contains(from) && paths_of(added).contains(to)
                        && base.files.contains_key(from) && read.contains_key(to)
                        && base.files[from].hash == Some(read[to])
                }
            &&& forall|i: int, j: int|
                0 <= i < j < renamed.len() ==> (#[trigger] renamed[i]).0 != (
                #[trigger] renamed[j]).0 && renamed[i].1 != renamed[j].1
        }),
{
    if base.has_hashes && live {
        let sources = rename_sources(deleted, base.files);
        lemma_sources(deleted, base.files);
        lemma_pairs(added, read, sources);
        let renamed = renames(added, deleted, base, live, read);
        assert forall|i: int| 0 <= i < renamed.len() implies {
            let (from, to) = #[trigger] renamed[i];
            paths_of(deleted).contains(from) && paths_of(added).contains(to)
                && base.files.contains_key(from) && read.contains_key(to)
                && base.files[from].hash == Some(read[to])
        } by {
            let to = renamed[i].1;
            assert(sources.contains_key(read[to]));
        }
        assert forall|i: int, j: int| 0 <= i < j < renamed.len() implies (
        #[trigger] renamed[i]).0 != (#[trigger] renamed[j]).0 && renamed[i].1 != renamed[j].1 by {
            assert(sources.contains_key(read[renamed[i].1]));
            assert(sources.contains_key(read[renamed[j].1]));
        }
    }
}

} // verus!
