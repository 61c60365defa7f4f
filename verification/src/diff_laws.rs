//! What a diff means: which files it reports, in terms of what the two
//! observations hold.
use crate::lists::{lemma_filter_contains, lemma_filter_map_contains};
use crate::snapshot::{EntryView, SnapshotView};
use crate::snapshot_diff::{
    change_report, changed_by_metadata, content_change, hash_at, is_cleared, lone_report,
    metadata_change, only_in, pair_renames, rename_sources, renames, target_hashes, ChangeView, Evidence,
    Verification, Verify,
};
use crate::snapshot_tools::{differences, DiffOptionsView};
use vstd::prelude::*;

verus! {

/// Whether a list of changes reports a path.
pub open spec fn reports(changes: Seq<ChangeView>, path: Seq<char>) -> bool {
    exists|i: int| 0 <= i < changes.len() && (#[trigger] changes[i]).path == path
}

/// Whether a path is looked at: it starts with the prefix that was asked for.
pub open spec fn looked_at(prefix: Option<Seq<char>>, path: Seq<char>) -> bool {
    prefix matches Some(p) ==> p.len() <= path.len() && forall|i: int|
        0 <= i < p.len() ==> #[trigger] p[i] == path[i]
}

/// Whether the metadata of a file differs: its size, or its digest, or, where a
/// digest is missing, its time.
pub open spec fn metadata_differs(before: EntryView, after: EntryView) -> bool {
    ||| before.size != after.size
    ||| before.digest is Some && after.digest is Some && before.digest != after.digest
    ||| (before.digest is None || after.digest is None) && before.mtime != after.mtime
}

/// The hash of a file's content on the side of the target: read from the tree,
/// or recorded in the snapshot that is the target.
pub open spec fn content_now(
    target: SnapshotView,
    live: bool,
    read: Map<Seq<char>, Seq<u8>>,
    path: Seq<char>,
) -> Option<Seq<u8>> {
    if live && read.contains_key(path) {
        Some(read[path])
    } else if !live && target.files.contains_key(path) {
        target.files[path].hash
    } else {
        None
    }
}

/// Whether a diff compares content.
pub open spec fn compares_content(
    base: SnapshotView,
    target: SnapshotView,
    options: DiffOptionsView,
) -> bool {
    options.verify != Verify::Off && base.has_hashes && (options.target is None
        || target.has_hashes)
}

/// Whether a list of paths is that of a snapshot's files.
pub open spec fn lists_files(paths: Seq<Seq<char>>, s: SnapshotView) -> bool {
    forall|p: Seq<char>| #[trigger] s.files.contains_key(p) <==> paths.contains(p)
}

proof fn lemma_reports(
    paths: Seq<Seq<char>>,
    f: spec_fn(Seq<char>) -> Option<ChangeView>,
    path: Seq<char>,
)
    requires
        forall|p: Seq<char>| #[trigger] f(p) matches Some(c) ==> c.path == p,
    ensures
        reports(paths.filter_map(f), path) <==> paths.contains(path) && f(path) is Some,
{
    let all = paths.filter_map(f);
    if reports(all, path) {
        let k = choose|k: int| 0 <= k < all.len() && (#[trigger] all[k]).path == path;
        assert(all.contains(all[k]));
        lemma_filter_map_contains(paths, f, all[k]);
        let i = choose|i: int| 0 <= i < paths.len() && f(#[trigger] paths[i]) == Some(all[k]);
        assert(paths[i] == path);
    }
    if paths.contains(path) && f(path) is Some {
        let c = f(path)->0;
        let i = choose|i: int| 0 <= i < paths.len() && paths[i] == path;
        assert(f(paths[i]) == Some(c));
        lemma_filter_map_contains(paths, f, c);
        let k = choose|k: int| 0 <= k < all.len() && all[k] == c;
        assert(all[k].path == path);
    }
}

proof fn lemma_looked_at(prefix: Option<Seq<char>>, path: Seq<char>)
    ensures
        crate::snapshot_diff::in_scope(prefix, path) == looked_at(prefix, path),
{
    if let Some(p) = prefix {
        if looked_at(prefix, path) {
            assert(path.take(p.len() as int) =~= p);
        }
        if crate::text::opens(path, p) {
            assert forall|i: int| 0 <= i < p.len() implies #[trigger] p[i] == path[i] by {
                assert(path.take(p.len() as int)[i] == path[i]);
            }
        }
    }
}

proof fn lemma_flagged(
    base: SnapshotView,
    target: SnapshotView,
    paths: Seq<Seq<char>>,
    prefix: Option<Seq<char>>,
    path: Seq<char>,
)
    requires
        lists_files(paths, target),
    ensures
        reports(changed_by_metadata(paths, base.files, target.files, prefix), path) <==> looked_at(
            prefix,
            path,
        ) && base.files.contains_key(path) && target.files.contains_key(path) && metadata_differs(
            base.files[path],
            target.files[path],
        ),
{
    let m = |p: Seq<char>|
        change_report(
            base.files,
            target.files,
            prefix,
            p,
            metadata_change(base.files[p], target.files[p]),
        );
    lemma_reports(paths, m, path);
    lemma_looked_at(prefix, path);
    assert(target.files.contains_key(path) <==> paths.contains(path));
}

/// The report of every changed file in a list of changed files is that of its
/// path.
proof fn lemma_flagged_report(
    base: SnapshotView,
    target: SnapshotView,
    paths: Seq<Seq<char>>,
    prefix: Option<Seq<char>>,
    c: ChangeView,
)
    requires
        changed_by_metadata(paths, base.files, target.files, prefix).contains(c),
    ensures
        c.evidence == Evidence::Size <==> base.files[c.path].size != target.files[c.path].size,
        c.size == target.files[c.path].size,
        c.previous_size == Some(base.files[c.path].size),
        c.evidence != Evidence::Size ==> c.evidence == (if base.files[c.path].digest is Some
            && target.files[c.path].digest is Some {
            Evidence::Digest
        } else {
            Evidence::Mtime
        }),
{
    let m = |p: Seq<char>|
        change_report(
            base.files,
            target.files,
            prefix,
            p,
            metadata_change(base.files[p], target.files[p]),
        );
    lemma_filter_map_contains(paths, m, c);
}

/// A diff reports a file as modified if and only if both observations hold it,
/// it lies where the diff looks, and it changed. Its size tells; else its
/// metadata does, and content has the last word where it is compared and known
/// on both sides: verifying suspects drops a flagged file only if its content is
/// what the base recorded, and verifying all goes by content alone.
pub proof fn law_modified_files_are_those_that_changed(
    base: SnapshotView,
    base_paths: Seq<Seq<char>>,
    target: SnapshotView,
    paths: Seq<Seq<char>>,
    options: DiffOptionsView,
    read: Map<Seq<char>, Seq<u8>>,
    path: Seq<char>,
)
    requires
        lists_files(paths, target),
    ensures
        ({
            let d = differences(base, base_paths, target, paths, options, read);
            let b = base.files[path];
            let t = target.files[path];
            let now = content_now(target, options.target is None, read, path);
            let known = compares_content(base, target, options) && b.hash is Some && now is Some;
            reports(d.modified, path) <==> {
                &&& looked_at(options.prefix, path)
                &&& base.files.contains_key(path)
                &&& target.files.contains_key(path)
                &&& {
                    ||| b.size != t.size
                    ||| metadata_differs(b, t) && !(known && b.hash == now)
                    ||| known && b.hash != now && options.verify == Verify::All
                }
            }
        }),
{
    let live = options.target is None;
    let prefix = options.prefix;
    let hashes = target_hashes(target, live, read);
    let flagged = changed_by_metadata(paths, base.files, target.files, prefix);
    let d = differences(base, base_paths, target, paths, options, read);
    let now = content_now(target, live, read, path);
    assert(target.files.contains_key(path) ==> hash_at(hashes, path) == now);
    lemma_flagged(base, target, paths, prefix, path);
    lemma_looked_at(prefix, path);
    if compares_content(base, target, options) {
        if options.verify == Verify::Suspect {
            let p = |c: ChangeView| !is_cleared(c, base.files, hashes);
            if reports(d.modified, path) {
                let k = choose|k: int| 0 <= k < d.modified.len() && (#[trigger] d.modified[k]).path
                    == path;
                let c = d.modified[k];
                assert(d.modified.contains(c));
                lemma_filter_contains(flagged, p, c);
                let j = choose|j: int| 0 <= j < flagged.len() && flagged[j] == c;
                assert(flagged[j].path == path);
                lemma_flagged_report(base, target, paths, prefix, c);
            }
            if reports(flagged, path) {
                let j = choose|j: int| 0 <= j < flagged.len() && (#[trigger] flagged[j]).path
                    == path;
                let c = flagged[j];
                assert(flagged.contains(c));
                lemma_flagged_report(base, target, paths, prefix, c);
                lemma_filter_contains(flagged, p, c);
                if p(c) {
                    let k = choose|k: int| 0 <= k < d.modified.len() && d.modified[k] == c;
                    assert(d.modified[k].path == path);
                }
            }
        } else {
            let m = |p: Seq<char>|
                change_report(
                    base.files,
                    target.files,
                    prefix,
                    p,
                    content_change(base.files[p], target.files[p], hash_at(hashes, p)),
                );
            lemma_reports(paths, m, path);
            assert(target.files.contains_key(path) <==> paths.contains(path));
        }
    }
}

/// A modified file is reported with its size now and before, and with what told
/// that it changed: the size where that differs, content only where both hashes
/// are known and differ, and else the digests where both are there, or the time.
pub proof fn law_modified_files_are_reported_as_they_are(
    base: SnapshotView,
    base_paths: Seq<Seq<char>>,
    target: SnapshotView,
    paths: Seq<Seq<char>>,
    options: DiffOptionsView,
    read: Map<Seq<char>, Seq<u8>>,
    at: int,
)
    requires
        0 <= at < differences(base, base_paths, target, paths, options, read).modified.len(),
    ensures
        ({
            let c = differences(base, base_paths, target, paths, options, read).modified[at];
            let b = base.files[c.path];
            let t = target.files[c.path];
            let now = content_now(target, options.target is None, read, c.path);
            let known = compares_content(base, target, options) && b.hash is Some && now is Some;
            &&& c.size == t.size
            &&& c.previous_size == Some(b.size)
            &&& c.evidence == Evidence::Size <==> b.size != t.size
            &&& c.evidence == Evidence::Content <==> b.size == t.size && options.verify
                == Verify::All && known && b.hash != now
            &&& c.evidence == Evidence::Digest ==> b.digest is Some && t.digest is Some && b.digest
                != t.digest
            &&& c.evidence == Evidence::Mtime ==> (b.digest is None || t.digest is None) && b.mtime
                != t.mtime
        }),
{
    let live = options.target is None;
    let prefix = options.prefix;
    let hashes = target_hashes(target, live, read);
    let flagged = changed_by_metadata(paths, base.files, target.files, prefix);
    let d = differences(base, base_paths, target, paths, options, read);
    let c = d.modified[at];
    assert(d.modified.contains(c));
    if options.verify == Verify::All && compares_content(base, target, options) {
        let m = |p: Seq<char>|
            change_report(
                base.files,
                target.files,
                prefix,
                p,
                content_change(base.files[p], target.files[p], hash_at(hashes, p)),
            );
        lemma_filter_map_contains(paths, m, c);
    } else {
        if compares_content(base, target, options) {
            lemma_filter_contains(
                flagged,
                |c: ChangeView| !is_cleared(c, base.files, hashes),
                c,
            );
        }
        lemma_flagged_report(base, target, paths, prefix, c);
        let m = |p: Seq<char>|
            change_report(
                base.files,
                target.files,
                prefix,
                p,
                metadata_change(base.files[p], target.files[p]),
            );
        lemma_filter_map_contains(paths, m, c);
    }
}

/// Whether a pair of a rename ends at a path.
pub open spec fn renamed_to(renamed: Seq<(Seq<char>, Seq<char>)>, path: Seq<char>) -> bool {
    exists|i: int| 0 <= i < renamed.len() && (#[trigger] renamed[i]).1 == path
}

/// Whether a pair of a rename starts at a path.
pub open spec fn renamed_from(renamed: Seq<(Seq<char>, Seq<char>)>, path: Seq<char>) -> bool {
    exists|i: int| 0 <= i < renamed.len() && (#[trigger] renamed[i]).0 == path
}

proof fn lemma_lone(
    here: SnapshotView,
    there: SnapshotView,
    paths: Seq<Seq<char>>,
    prefix: Option<Seq<char>>,
    path: Seq<char>,
)
    requires
        lists_files(paths, here),
    ensures
        reports(only_in(paths, here.files, there.files, prefix), path) <==> looked_at(prefix, path)
            && here.files.contains_key(path) && !there.files.contains_key(path),
        forall|c: ChangeView| #[trigger]
            only_in(paths, here.files, there.files, prefix).contains(c) ==> c.size
                == here.files[c.path].size && c.previous_size is None,
{
    let f = |p: Seq<char>| lone_report(here.files, there.files, prefix, p);
    lemma_reports(paths, f, path);
    lemma_looked_at(prefix, path);
    assert(here.files.contains_key(path) <==> paths.contains(path));
    assert forall|c: ChangeView| #[trigger]
        only_in(paths, here.files, there.files, prefix).contains(c) implies c.size
        == here.files[c.path].size && c.previous_size is None by {
        lemma_filter_map_contains(paths, f, c);
    }
}

/// A file that only the target holds is added, or a file was renamed to it; one
/// that only the base holds is deleted, or was renamed; and no other is either.
/// Each is reported with its size where it is.
pub proof fn law_added_and_deleted_files_are_on_one_side(
    base: SnapshotView,
    base_paths: Seq<Seq<char>>,
    target: SnapshotView,
    paths: Seq<Seq<char>>,
    options: DiffOptionsView,
    read: Map<Seq<char>, Seq<u8>>,
    path: Seq<char>,
)
    requires
        lists_files(base_paths, base),
        lists_files(paths, target),
    ensures
        ({
            let d = differences(base, base_paths, target, paths, options, read);
            let inside = looked_at(options.prefix, path);
            let b = base.files.contains_key(path);
            let t = target.files.contains_key(path);
            &&& reports(d.added, path) || renamed_to(d.renamed, path) <==> inside && t && !b
            &&& reports(d.deleted, path) || renamed_from(d.renamed, path) <==> inside && b && !t
            &&& !(reports(d.added, path) && renamed_to(d.renamed, path))
            &&& !(reports(d.deleted, path) && renamed_from(d.renamed, path))
            &&& forall|i: int|
                0 <= i < d.added.len() ==> (#[trigger] d.added[i]).size
                    == target.files[d.added[i].path].size && d.added[i].previous_size is None
            &&& forall|i: int|
                0 <= i < d.deleted.len() ==> (#[trigger] d.deleted[i]).size
                    == base.files[d.deleted[i].path].size && d.deleted[i].previous_size is None
        }),
{
    let live = options.target is None;
    let added = only_in(paths, target.files, base.files, options.prefix);
    let deleted = only_in(base_paths, base.files, target.files, options.prefix);
    let d = differences(base, base_paths, target, paths, options, read);
    lemma_lone(target, base, paths, options.prefix, path);
    lemma_lone(base, target, base_paths, options.prefix, path);
    crate::snapshot_laws::law_renames_pair_equal_content(added, deleted, base, live, read);
    let tos = d.renamed.map_values(|r: (Seq<char>, Seq<char>)| r.1);
    let froms = d.renamed.map_values(|r: (Seq<char>, Seq<char>)| r.0);
    let p = |c: ChangeView| !tos.contains(c.path);
    let q = |c: ChangeView| !froms.contains(c.path);
    lemma_pair_sides(d.renamed, path);
    if options.detect_renames {
        lemma_reports_filtered(added, tos, path);
        lemma_reports_filtered(deleted, froms, path);
        assert(d.added == added.filter(p));
        assert(d.deleted == deleted.filter(q));
        if renamed_to(d.renamed, path) {
            let i = choose|i: int| 0 <= i < d.renamed.len() && (#[trigger] d.renamed[i]).1 == path;
            lemma_path_reported(added, d.renamed[i].1);
        }
        if renamed_from(d.renamed, path) {
            let i = choose|i: int| 0 <= i < d.renamed.len() && (#[trigger] d.renamed[i]).0 == path;
            lemma_path_reported(deleted, d.renamed[i].0);
        }
        assert forall|i: int| 0 <= i < d.added.len() implies (#[trigger] d.added[i]).size
            == target.files[d.added[i].path].size && d.added[i].previous_size is None by {
            assert(d.added.contains(d.added[i]));
            lemma_filter_contains(added, p, d.added[i]);
        }
        assert forall|i: int| 0 <= i < d.deleted.len() implies (#[trigger] d.deleted[i]).size
            == base.files[d.deleted[i].path].size && d.deleted[i].previous_size is None by {
            assert(d.deleted.contains(d.deleted[i]));
            lemma_filter_contains(deleted, q, d.deleted[i]);
        }
    } else {
        assert forall|i: int| 0 <= i < d.added.len() implies (#[trigger] d.added[i]).size
            == target.files[d.added[i].path].size && d.added[i].previous_size is None by {
            assert(added.contains(d.added[i]));
        }
        assert forall|i: int| 0 <= i < d.deleted.len() implies (#[trigger] d.deleted[i]).size
            == base.files[d.deleted[i].path].size && d.deleted[i].previous_size is None by {
            assert(deleted.contains(d.deleted[i]));
        }
    }
}

proof fn lemma_pair_sides(renamed: Seq<(Seq<char>, Seq<char>)>, path: Seq<char>)
    ensures
        renamed.map_values(|r: (Seq<char>, Seq<char>)| r.1).contains(path) <==> renamed_to(
            renamed,
            path,
        ),
        renamed.map_values(|r: (Seq<char>, Seq<char>)| r.0).contains(path) <==> renamed_from(
            renamed,
            path,
        ),
{
    let tos = renamed.map_values(|r: (Seq<char>, Seq<char>)| r.1);
    let froms = renamed.map_values(|r: (Seq<char>, Seq<char>)| r.0);
    if tos.contains(path) {
        let i = choose|i: int| 0 <= i < tos.len() && tos[i] == path;
        assert(renamed[i].1 == path);
    }
    if froms.contains(path) {
        let i = choose|i: int| 0 <= i < froms.len() && froms[i] == path;
        assert(renamed[i].0 == path);
    }
    if renamed_to(renamed, path) {
        let i = choose|i: int| 0 <= i < renamed.len() && (#[trigger] renamed[i]).1 == path;
        assert(tos[i] == path);
    }
    if renamed_from(renamed, path) {
        let i = choose|i: int| 0 <= i < renamed.len() && (#[trigger] renamed[i]).0 == path;
        assert(froms[i] == path);
    }
}

proof fn lemma_path_reported(changes: Seq<ChangeView>, path: Seq<char>)
    requires
        crate::snapshot_laws::paths_of(changes).contains(path),
    ensures
        reports(changes, path),
{
    let all = crate::snapshot_laws::paths_of(changes);
    let k = choose|k: int| 0 <= k < all.len() && all[k] == path;
    assert(changes[k].path == path);
}

proof fn lemma_reports_filtered(changes: Seq<ChangeView>, out: Seq<Seq<char>>, path: Seq<char>)
    ensures
        reports(changes.filter(|c: ChangeView| !out.contains(c.path)), path) <==> reports(
            changes,
            path,
        ) && !out.contains(path),
{
    let p = |c: ChangeView| !out.contains(c.path);
    let left = changes.filter(p);
    if reports(left, path) {
        let k = choose|k: int| 0 <= k < left.len() && (#[trigger] left[k]).path == path;
        assert(left.contains(left[k]));
        lemma_filter_contains(changes, p, left[k]);
        let i = choose|i: int| 0 <= i < changes.len() && changes[i] == left[k];
        assert(changes[i].path == path);
    }
    if reports(changes, path) && !out.contains(path) {
        let i = choose|i: int| 0 <= i < changes.len() && (#[trigger] changes[i]).path == path;
        assert(changes.contains(changes[i]));
        lemma_filter_contains(changes, p, changes[i]);
        let k = choose|k: int| 0 <= k < left.len() && left[k] == changes[i];
        assert(left[k].path == path);
    }
}

/// Renames are looked for only where that is asked for, in the tree itself, and
/// against a base that recorded content. Each pairs a file that only the base
/// holds with one that only the target holds and that has the content which the
/// base recorded. And none is missed: where a file that only the target holds
/// has the content of one that is gone, that content is paired.
pub proof fn law_renames_are_files_that_moved(
    base: SnapshotView,
    base_paths: Seq<Seq<char>>,
    target: SnapshotView,
    paths: Seq<Seq<char>>,
    options: DiffOptionsView,
    read: Map<Seq<char>, Seq<u8>>,
    from: Seq<char>,
    to: Seq<char>,
)
    requires
        lists_files(base_paths, base),
        lists_files(paths, target),
    ensures
        ({
            let d = differences(base, base_paths, target, paths, options, read);
            let looks = options.detect_renames && options.target is None && base.has_hashes;
            let gone = looked_at(options.prefix, from) && base.files.contains_key(from)
                && !target.files.contains_key(from);
            let new = looked_at(options.prefix, to) && target.files.contains_key(to)
                && !base.files.contains_key(to);
            &&& !looks ==> d.renamed.len() == 0
            &&& d.renamed.contains((from, to)) ==> gone && new && read.contains_key(to)
                && base.files[from].hash == Some(read[to])
            &&& looks && gone && new && read.contains_key(to) && base.files[from].hash == Some(
                read[to],
            ) ==> exists|i: int|
                0 <= i < d.renamed.len() && read.contains_key((#[trigger] d.renamed[i]).1)
                    && read[d.renamed[i].1] == read[to]
        }),
{
    let live = options.target is None;
    let added = only_in(paths, target.files, base.files, options.prefix);
    let deleted = only_in(base_paths, base.files, target.files, options.prefix);
    let d = differences(base, base_paths, target, paths, options, read);
    crate::snapshot_laws::law_renames_pair_equal_content(added, deleted, base, live, read);
    lemma_lone(target, base, paths, options.prefix, to);
    lemma_lone(base, target, base_paths, options.prefix, from);
    if d.renamed.contains((from, to)) {
        let i = choose|i: int| 0 <= i < d.renamed.len() && d.renamed[i] == (from, to);
        lemma_path_reported(added, d.renamed[i].1);
        lemma_path_reported(deleted, d.renamed[i].0);
    }
    if options.detect_renames && live && base.has_hashes && reports(added, to) && reports(
        deleted,
        from,
    ) && read.contains_key(to) && base.files[from].hash == Some(read[to]) {
        let sources = rename_sources(deleted, base.files);
        let j = choose|j: int| 0 <= j < deleted.len() && (#[trigger] deleted[j]).path == from;
        lemma_source_of(deleted, base.files, j);
        let k = choose|k: int| 0 <= k < added.len() && (#[trigger] added[k]).path == to;
        lemma_paired(added, read, sources, k);
    }
}

proof fn lemma_source_of(deleted: Seq<ChangeView>, base: Map<Seq<char>, EntryView>, j: int)
    requires
        0 <= j < deleted.len(),
        base.contains_key(deleted[j].path),
        base[deleted[j].path].hash is Some,
    ensures
        rename_sources(deleted, base).contains_key(base[deleted[j].path].hash->0),
    decreases deleted.len(),
{
    if j < deleted.len() - 1 {
        lemma_source_of(deleted.drop_last(), base, j);
    }
}

proof fn lemma_paired(
    added: Seq<ChangeView>,
    read: Map<Seq<char>, Seq<u8>>,
    sources: Map<Seq<u8>, Seq<char>>,
    k: int,
)
    requires
        0 <= k < added.len(),
        read.contains_key(added[k].path),
        sources.contains_key(read[added[k].path]),
    ensures
        ({
            let (pairs, left) = pair_renames(added, read, sources);
            &&& !left.contains_key(read[added[k].path])
            &&& exists|i: int|
                0 <= i < pairs.len() && read.contains_key((#[trigger] pairs[i]).1)
                    && read[pairs[i].1] == read[added[k].path]
        }),
    decreases added.len(),
{
    let front = added.drop_last();
    let h = read[added[k].path];
    let (before, was) = pair_renames(front, read, sources);
    let (pairs, left) = pair_renames(added, read, sources);
    if k < added.len() - 1 {
        lemma_paired(front, read, sources, k);
        let i = choose|i: int|
            0 <= i < before.len() && read.contains_key((#[trigger] before[i]).1)
                && read[before[i].1] == h;
        assert(pairs[i] == before[i]);
    } else {
        lemma_left(front, read, sources, h);
        if was.contains_key(h) {
            assert(pairs.last().1 == added[k].path);
        } else {
            let i = choose|i: int|
                0 <= i < before.len() && read.contains_key((#[trigger] before[i]).1)
                    && read[before[i].1] == h;
            assert(pairs[i] == before[i]);
        }
    }
}

/// A source that is no longer there was paired.
proof fn lemma_left(
    added: Seq<ChangeView>,
    read: Map<Seq<char>, Seq<u8>>,
    sources: Map<Seq<u8>, Seq<char>>,
    h: Seq<u8>,
)
    requires
        sources.contains_key(h),
    ensures
        ({
            let (pairs, left) = pair_renames(added, read, sources);
            left.contains_key(h) || exists|i: int|
                0 <= i < pairs.len() && read.contains_key((#[trigger] pairs[i]).1)
                    && read[pairs[i].1] == h
        }),
    decreases added.len(),
{
    if added.len() > 0 {
        let front = added.drop_last();
        lemma_left(front, read, sources, h);
        let (before, was) = pair_renames(front, read, sources);
        let (pairs, left) = pair_renames(added, read, sources);
        if !was.contains_key(h) {
            let i = choose|i: int|
                0 <= i < before.len() && read.contains_key((#[trigger] before[i]).1)
                    && read[before[i].1] == h;
            assert(pairs[i] == before[i]);
        } else if !left.contains_key(h) {
            assert(pairs.last().1 == added.last().path);
        }
    }
}

/// The number of paths with a property is that of the paths that it leaves.
proof fn lemma_count_is_filter_len(paths: Seq<Seq<char>>, p: spec_fn(Seq<char>) -> bool)
    ensures
        crate::snapshot_diff::count_of(paths, p) == paths.filter(p).len(),
    decreases paths.len(),
{
    reveal(Seq::filter);
    if paths.len() > 0 {
        lemma_count_is_filter_len(paths.drop_last(), p);
    }
}

proof fn lemma_filtered_reports(
    paths: Seq<Seq<char>>,
    f: spec_fn(Seq<char>) -> Option<ChangeView>,
    g: spec_fn(ChangeView) -> bool,
    q: spec_fn(Seq<char>) -> bool,
)
    requires
        forall|p: Seq<char>|
            paths.contains(p) ==> #[trigger] q(p) == (f(p) matches Some(c) && g(c)),
    ensures
        paths.filter_map(f).filter(g).len() == paths.filter(q).len(),
    decreases paths.len(),
{
    reveal(Seq::filter);
    if paths.len() > 0 {
        let front = paths.drop_last();
        assert forall|p: Seq<char>| front.contains(p) implies #[trigger] q(p) == (f(
            p,
        ) matches Some(c) && g(c)) by {
            let i = choose|i: int| 0 <= i < front.len() && front[i] == p;
            assert(paths[i] == p);
        }
        lemma_filtered_reports(front, f, g, q);
        let last = paths.last();
        assert(paths[paths.len() - 1] == last);
        assert(q(last) == (f(last) matches Some(c) && g(c)));
        let all = paths.filter_map(f);
        if let Some(c) = f(last) {
            assert(all.drop_last() =~= front.filter_map(f));
            assert(all.last() == c);
        }
    }
}

/// A filter leaves what it does not take out.
proof fn lemma_filter_parts(s: Seq<ChangeView>, p: spec_fn(ChangeView) -> bool)
    ensures
        s.filter(p).len() + s.filter(|c: ChangeView| !p(c)).len() == s.len(),
    decreases s.len(),
{
    reveal(Seq::filter);
    if s.len() > 0 {
        lemma_filter_parts(s.drop_last(), p);
    }
}

/// What verification says of itself: nothing where it was not asked for; that a
/// side has no hashes where that is so; and else how many files it looked at and
/// what came of them. Verifying suspects hashes the files that only metadata
/// flags, and clears those whose content is what the base recorded. Verifying
/// all compares every file whose content is known on both sides; of these it
/// counts those that metadata flags and content clears, and those that only
/// content shows.
pub proof fn law_verification_counts_what_it_did(
    base: SnapshotView,
    base_paths: Seq<Seq<char>>,
    target: SnapshotView,
    paths: Seq<Seq<char>>,
    options: DiffOptionsView,
    read: Map<Seq<char>, Seq<u8>>,
)
    requires
        lists_files(paths, target),
    ensures
        ({
            let live = options.target is None;
            let v = differences(base, base_paths, target, paths, options, read).verification;
            let both = |p: Seq<char>|
                looked_at(options.prefix, p) && base.files.contains_key(p)
                    && target.files.contains_key(p);
            let known = |p: Seq<char>|
                base.files[p].hash is Some && content_now(target, live, read, p) is Some;
            let equal = |p: Seq<char>|
                base.files[p].hash == content_now(target, live, read, p);
            let suspect = |p: Seq<char>|
                both(p) && base.files[p].size == target.files[p].size && metadata_differs(
                    base.files[p],
                    target.files[p],
                );
            let plain = |p: Seq<char>|
                both(p) && base.files[p].size == target.files[p].size && !metadata_differs(
                    base.files[p],
                    target.files[p],
                );
            if options.verify == Verify::Off {
                v == Verification::Off
            } else if !base.has_hashes {
                v == Verification::NoBaseHashes(options.verify)
            } else if !live && !target.has_hashes {
                v == Verification::NoTargetHashes(options.verify)
            } else if options.verify == Verify::Suspect {
                v == (Verification::Suspect {
                    hashed: paths.filter(suspect).len() as u64,
                    cleared: paths.filter(
                        |p: Seq<char>| suspect(p) && known(p) && equal(p),
                    ).len() as u64,
                })
            } else {
                v == (Verification::All {
                    compared: paths.filter(|p: Seq<char>| both(p) && known(p)).len() as u64,
                    cleared: paths.filter(
                        |p: Seq<char>| suspect(p) && known(p) && equal(p),
                    ).len() as u64,
                    content_only: paths.filter(
                        |p: Seq<char>| plain(p) && known(p) && !equal(p),
                    ).len() as u64,
                })
            }
        }),
{
    let live = options.target is None;
    let prefix = options.prefix;
    let hashes = target_hashes(target, live, read);
    let both = |p: Seq<char>|
        looked_at(options.prefix, p) && base.files.contains_key(p) && target.files.contains_key(p);
    let known = |p: Seq<char>|
        base.files[p].hash is Some && content_now(target, live, read, p) is Some;
    let equal = |p: Seq<char>| base.files[p].hash == content_now(target, live, read, p);
    let suspect = |p: Seq<char>|
        both(p) && base.files[p].size == target.files[p].size && metadata_differs(
            base.files[p],
            target.files[p],
        );
    let plain = |p: Seq<char>|
        both(p) && base.files[p].size == target.files[p].size && !metadata_differs(
            base.files[p],
            target.files[p],
        );
    let same = |p: Seq<char>| suspect(p) && known(p) && equal(p);
    let m = |p: Seq<char>|
        change_report(
            base.files,
            target.files,
            prefix,
            p,
            metadata_change(base.files[p], target.files[p]),
        );
    let flagged = paths.filter_map(m);
    assert forall|p: Seq<char>| looked_at(prefix, p) == #[trigger] crate::snapshot_diff::in_scope(
        prefix,
        p,
    ) by {
        lemma_looked_at(prefix, p);
    }
    if compares_content(base, target, options) {
        if options.verify == Verify::Suspect {
            let not_size = |c: ChangeView| c.evidence != Evidence::Size;
            let cleared = |c: ChangeView| is_cleared(c, base.files, hashes);
            lemma_filtered_reports(paths, m, not_size, suspect);
            assert forall|p: Seq<char>| paths.contains(p) implies #[trigger] same(p) == (m(
                p,
            ) matches Some(c) && cleared(c)) by {
                assert(crate::snapshot_diff::in_scope(prefix, p) == looked_at(prefix, p));
            }
            lemma_filtered_reports(paths, m, cleared, same);
            lemma_filter_parts(flagged, cleared);
            assert((|c: ChangeView| !cleared(c)) =~= (|c: ChangeView|
                !is_cleared(c, base.files, hashes)));
            assert(paths.filter(same) == paths.filter(
                |p: Seq<char>| suspect(p) && known(p) && equal(p),
            ));
        } else {
            let a = |p: Seq<char>|
                crate::snapshot_diff::is_compared(base.files, target.files, prefix, hashes, p);
            let b = |p: Seq<char>|
                crate::snapshot_diff::is_flagged_identical(
                    base.files,
                    target.files,
                    prefix,
                    hashes,
                    p,
                );
            let c = |p: Seq<char>|
                crate::snapshot_diff::is_content_only(base.files, target.files, prefix, hashes, p);
            lemma_count_is_filter_len(paths, a);
            lemma_count_is_filter_len(paths, b);
            lemma_count_is_filter_len(paths, c);
            lemma_same_filter(paths, a, |p: Seq<char>| both(p) && known(p));
            lemma_same_filter(paths, b, same);
            lemma_same_filter(paths, c, |p: Seq<char>| plain(p) && known(p) && !equal(p));
        }
    }
}

proof fn lemma_same_filter(
    paths: Seq<Seq<char>>,
    p: spec_fn(Seq<char>) -> bool,
    q: spec_fn(Seq<char>) -> bool,
)
    requires
        forall|x: Seq<char>| #[trigger] p(x) == q(x),
    ensures
        paths.filter(p) == paths.filter(q),
{
    assert(p =~= q);
}

/// The files of every list stand in the order of the observation they are taken
/// from, so that no file is listed twice.
pub proof fn law_changes_are_in_the_order_of_the_paths(
    base: SnapshotView,
    base_paths: Seq<Seq<char>>,
    target: SnapshotView,
    paths: Seq<Seq<char>>,
    options: DiffOptionsView,
    read: Map<Seq<char>, Seq<u8>>,
)
    ensures
        ({
            let d = differences(base, base_paths, target, paths, options, read);
            &&& in_order_of(d.added, paths)
            &&& in_order_of(d.modified, paths)
            &&& in_order_of(d.deleted, base_paths)
        }),
{
    let live = options.target is None;
    let prefix = options.prefix;
    let hashes = target_hashes(target, live, read);
    let d = differences(base, base_paths, target, paths, options, read);
    let m = |p: Seq<char>|
        change_report(
            base.files,
            target.files,
            prefix,
            p,
            metadata_change(base.files[p], target.files[p]),
        );
    let c = |p: Seq<char>|
        change_report(
            base.files,
            target.files,
            prefix,
            p,
            content_change(base.files[p], target.files[p], hash_at(hashes, p)),
        );
    let a = |p: Seq<char>| lone_report(target.files, base.files, prefix, p);
    let e = |p: Seq<char>| lone_report(base.files, target.files, prefix, p);
    lemma_in_order(paths, m);
    lemma_in_order(paths, c);
    lemma_in_order(paths, a);
    lemma_in_order(base_paths, e);
    lemma_in_order_filtered(
        paths.filter_map(m),
        |c: ChangeView| !is_cleared(c, base.files, hashes),
        paths,
    );
    let tos = d.renamed.map_values(|r: (Seq<char>, Seq<char>)| r.1);
    let froms = d.renamed.map_values(|r: (Seq<char>, Seq<char>)| r.0);
    lemma_in_order_filtered(paths.filter_map(a), |c: ChangeView| !tos.contains(c.path), paths);
    lemma_in_order_filtered(
        base_paths.filter_map(e),
        |c: ChangeView| !froms.contains(c.path),
        base_paths,
    );
}

/// Whether changes stand in the order of a list of paths, each at its own place.
pub open spec fn in_order_of(changes: Seq<ChangeView>, paths: Seq<Seq<char>>) -> bool {
    exists|places: Seq<int>| #[trigger] are_places(places, changes, paths)
}

/// Whether changes stand at rising places of a list of paths.
pub open spec fn are_places(
    places: Seq<int>,
    changes: Seq<ChangeView>,
    paths: Seq<Seq<char>>,
) -> bool {
    &&& places.len() == changes.len()
    &&& forall|i: int|
        0 <= i < places.len() ==> 0 <= #[trigger] places[i] < paths.len() && paths[places[i]]
            == changes[i].path
    &&& forall|i: int, j: int|
        0 <= i < j < places.len() ==> #[trigger] places[i] < #[trigger] places[j]
}

proof fn lemma_in_order(paths: Seq<Seq<char>>, f: spec_fn(Seq<char>) -> Option<ChangeView>)
    requires
        forall|p: Seq<char>| #[trigger] f(p) matches Some(c) ==> c.path == p,
    ensures
        in_order_of(paths.filter_map(f), paths),
    decreases paths.len(),
{
    if paths.len() == 0 {
        assert(are_places(Seq::empty(), paths.filter_map(f), paths));
    } else {
        let front = paths.drop_last();
        lemma_in_order(front, f);
        let before = front.filter_map(f);
        let places = choose|places: Seq<int>| #[trigger] are_places(places, before, front);
        if f(paths.last()) is Some {
            assert(are_places(places.push(paths.len() - 1), paths.filter_map(f), paths));
        } else {
            assert(are_places(places, paths.filter_map(f), paths));
        }
    }
}

proof fn lemma_in_order_filtered(
    changes: Seq<ChangeView>,
    p: spec_fn(ChangeView) -> bool,
    paths: Seq<Seq<char>>,
)
    requires
        in_order_of(changes, paths),
    ensures
        in_order_of(changes.filter(p), paths),
{
    let places = choose|places: Seq<int>| #[trigger] are_places(places, changes, paths);
    lemma_places_filtered(changes, p, paths, places);
}

proof fn lemma_places_filtered(
    changes: Seq<ChangeView>,
    p: spec_fn(ChangeView) -> bool,
    paths: Seq<Seq<char>>,
    places: Seq<int>,
)
    requires
        are_places(places, changes, paths),
    ensures
        exists|left: Seq<int>| #[trigger]
            are_places(left, changes.filter(p), paths) && (left.len() > 0 ==> places.len() > 0
                && left.last() <= places.last()),
    decreases changes.len(),
{
    reveal(Seq::filter);
    if changes.len() == 0 {
        assert(are_places(Seq::empty(), changes.filter(p), paths));
    } else {
        let front = changes.drop_last();
        let was = places.drop_last();
        assert(are_places(was, front, paths)) by {
            assert forall|i: int| 0 <= i < was.len() implies 0 <= #[trigger] was[i] < paths.len()
                && paths[was[i]] == front[i].path by {
                assert(was[i] == places[i]);
            }
        }
        lemma_places_filtered(front, p, paths, was);
        let left = choose|left: Seq<int>| #[trigger]
            are_places(left, front.filter(p), paths) && (left.len() > 0 ==> was.len() > 0
                && left.last() <= was.last());
        if p(changes.last()) {
            let more = left.push(places.last());
            assert(are_places(more, changes.filter(p), paths)) by {
                assert forall|i: int, j: int| 0 <= i < j < more.len() implies #[trigger] more[i]
                    < #[trigger] more[j] by {
                    if j == more.len() - 1 {
                        assert(left[i] <= left.last());
                        assert(places[places.len() - 2] < places[places.len() - 1]);
                    }
                }
            }
        } else {
            assert(are_places(left, changes.filter(p), paths));
            if left.len() > 0 {
                assert(places[places.len() - 2] < places[places.len() - 1]);
            }
        }
    }
}

proof fn lemma_last_source(deleted: Seq<ChangeView>, base: Map<Seq<char>, EntryView>, j: int)
    requires
        0 <= j < deleted.len(),
        base.contains_key(deleted[j].path),
        base[deleted[j].path].hash is Some,
    ensures
        exists|k: int|
            j <= k < deleted.len() && (#[trigger] deleted[k]).path == rename_sources(
                deleted,
                base,
            )[base[deleted[j].path].hash->0],
    decreases deleted.len(),
{
    let h = base[deleted[j].path].hash->0;
    let front = deleted.drop_last();
    let last = deleted.len() - 1;
    let now = rename_sources(deleted, base);
    if base.contains_key(deleted[last].path) && base[deleted[last].path].hash == Some(h) {
        assert(deleted[last].path == now[h]);
    } else {
        lemma_last_source(front, base, j);
        let k = choose|k: int|
            j <= k < front.len() && (#[trigger] front[k]).path == rename_sources(front, base)[h];
        assert(deleted[k].path == now[h]);
    }
}

proof fn lemma_first_target(
    added: Seq<ChangeView>,
    read: Map<Seq<char>, Seq<u8>>,
    sources: Map<Seq<u8>, Seq<char>>,
    i: int,
)
    requires
        0 <= i < pair_renames(added, read, sources).0.len(),
    ensures
        ({
            let (from, to) = pair_renames(added, read, sources).0[i];
            &&& read.contains_key(to)
            &&& sources.contains_key(read[to]) && sources[read[to]] == from
            &&& exists|k: int|
                0 <= k < added.len() && (#[trigger] added[k]).path == to && forall|j: int|
                    0 <= j < k ==> !(read.contains_key((#[trigger] added[j]).path)
                        && read[added[j].path] == read[to])
        }),
    decreases added.len(),
{
    let front = added.drop_last();
    let (before, was) = pair_renames(front, read, sources);
    let (pairs, left) = pair_renames(added, read, sources);
    lemma_left_is_source(front, read, sources);
    if i < before.len() {
        lemma_first_target(front, read, sources, i);
        let to = before[i].1;
        let k = choose|k: int|
            0 <= k < front.len() && (#[trigger] front[k]).path == to && forall|j: int|
                0 <= j < k ==> !(read.contains_key((#[trigger] front[j]).path)
                    && read[front[j].path] == read[to]);
        assert(added[k].path == to);
        assert forall|j: int| 0 <= j < k implies !(read.contains_key((#[trigger] added[j]).path)
            && read[added[j].path] == read[to]) by {
            assert(front[j] == added[j]);
        }
    } else {
        let k = added.len() - 1;
        let to = added[k].path;
        assert(pairs[i].1 == to);
        let h = read[to];
        assert(was.contains_key(h));
        assert forall|j: int| 0 <= j < k implies !(read.contains_key((#[trigger] added[j]).path)
            && read[added[j].path] == h) by {
            if read.contains_key(added[j].path) && read[added[j].path] == h {
                assert(front[j] == added[j]);
                lemma_paired(front, read, sources, j);
            }
        }
    }
}

proof fn lemma_left_is_source(
    added: Seq<ChangeView>,
    read: Map<Seq<char>, Seq<u8>>,
    sources: Map<Seq<u8>, Seq<char>>,
)
    ensures
        forall|h: Seq<u8>| #[trigger]
            pair_renames(added, read, sources).1.contains_key(h) ==> sources.contains_key(h)
                && pair_renames(added, read, sources).1[h] == sources[h],
    decreases added.len(),
{
    if added.len() > 0 {
        let front = added.drop_last();
        lemma_left_is_source(front, read, sources);
        let was = pair_renames(front, read, sources).1;
        let left = pair_renames(added, read, sources).1;
        assert forall|h: Seq<u8>| #[trigger] left.contains_key(h) implies sources.contains_key(h)
            && left[h] == sources[h] by {
            assert(was.contains_key(h) && left[h] == was[h]);
        }
    }
}

/// Where several files have the same content, the last of those that are gone
/// was renamed to the first of those that are new.
pub proof fn law_renames_pair_the_last_with_the_first(
    added: Seq<ChangeView>,
    deleted: Seq<ChangeView>,
    base: SnapshotView,
    read: Map<Seq<char>, Seq<u8>>,
    i: int,
    j: int,
)
    requires
        base.has_hashes,
        0 <= i < renames(added, deleted, base, true, read).len(),
        0 <= j < deleted.len(),
        base.files.contains_key(deleted[j].path),
        base.files[deleted[j].path].hash == Some(
            read[renames(added, deleted, base, true, read)[i].1],
        ),
    ensures
        ({
            let (from, to) = renames(added, deleted, base, true, read)[i];
            &&& exists|k: int| j <= k < deleted.len() && (#[trigger] deleted[k]).path == from
            &&& exists|k: int|
                0 <= k < added.len() && (#[trigger] added[k]).path == to && forall|l: int|
                    0 <= l < k ==> !(read.contains_key((#[trigger] added[l]).path)
                        && read[added[l].path] == read[to])
        }),
{
    let sources = rename_sources(deleted, base.files);
    lemma_first_target(added, read, sources, i);
    lemma_last_source(deleted, base.files, j);
}

proof fn lemma_paths_reported(changes: Seq<ChangeView>, path: Seq<char>)
    ensures
        crate::snapshot_laws::paths_of(changes).contains(path) <==> reports(changes, path),
{
    let all = crate::snapshot_laws::paths_of(changes);
    if all.contains(path) {
        lemma_path_reported(changes, path);
    }
    if reports(changes, path) {
        let k = choose|k: int| 0 <= k < changes.len() && (#[trigger] changes[k]).path == path;
        assert(all[k] == path);
    }
}

/// A diff of the tree reads the content of the files that it compares and of no
/// others: under suspect verification those that only metadata flags, under full
/// verification every file that both sides hold, and for renames those that only
/// the tree holds, if any is gone. Nothing is read where the base recorded no
/// content.
pub proof fn law_diffs_read_what_they_compare(
    base: SnapshotView,
    base_paths: Seq<Seq<char>>,
    target: SnapshotView,
    paths: Seq<Seq<char>>,
    options: DiffOptionsView,
    path: Seq<char>,
)
    requires
        lists_files(base_paths, base),
        lists_files(paths, target),
    ensures
        ({
            let wanted = crate::snapshot_laws::wanted_hashes(
                base,
                base_paths,
                target,
                paths,
                options,
            );
            let inside = looked_at(options.prefix, path);
            let b = base.files.contains_key(path);
            let t = target.files.contains_key(path);
            let gone = exists|q: Seq<char>|
                looked_at(options.prefix, q) && #[trigger] base.files.contains_key(q)
                    && !target.files.contains_key(q);
            wanted.contains(path) <==> options.target is None && base.has_hashes && {
                ||| options.verify == Verify::Suspect && inside && b && t && base.files[path].size
                    == target.files[path].size && metadata_differs(
                    base.files[path],
                    target.files[path],
                )
                ||| options.verify == Verify::All && inside && b && t
                ||| options.detect_renames && inside && t && !b && gone
            }
        }),
{
    let prefix = options.prefix;
    let flagged = changed_by_metadata(paths, base.files, target.files, prefix);
    let added = only_in(paths, target.files, base.files, prefix);
    let deleted = only_in(base_paths, base.files, target.files, prefix);
    let wanted = crate::snapshot_laws::wanted_hashes(base, base_paths, target, paths, options);
    let keep = |c: ChangeView| c.evidence != Evidence::Size;
    let suspects = flagged.filter(keep);
    let p = |x: Seq<char>| crate::snapshot_diff::shared(base.files, target.files, prefix, x);
    let both = paths.filter(p);
    lemma_flagged(base, target, paths, prefix, path);
    lemma_lone(target, base, paths, prefix, path);
    lemma_looked_at(prefix, path);
    lemma_paths_reported(added, path);
    lemma_paths_reported(suspects, path);
    lemma_filter_contains(paths, p, path);
    assert(target.files.contains_key(path) <==> paths.contains(path));
    if reports(suspects, path) {
        let k = choose|k: int| 0 <= k < suspects.len() && (#[trigger] suspects[k]).path == path;
        let c = suspects[k];
        assert(suspects.contains(c));
        lemma_filter_contains(flagged, keep, c);
        let j = choose|j: int| 0 <= j < flagged.len() && flagged[j] == c;
        assert(flagged[j].path == path);
        lemma_flagged_report(base, target, paths, prefix, c);
    }
    if reports(flagged, path) && base.files[path].size == target.files[path].size {
        let j = choose|j: int| 0 <= j < flagged.len() && (#[trigger] flagged[j]).path == path;
        let c = flagged[j];
        assert(flagged.contains(c));
        lemma_flagged_report(base, target, paths, prefix, c);
        lemma_filter_contains(flagged, keep, c);
        let k = choose|k: int| 0 <= k < suspects.len() && suspects[k] == c;
        assert(suspects[k].path == path);
    }
    if deleted.len() > 0 {
        let q = deleted[0].path;
        lemma_lone(base, target, base_paths, prefix, q);
        assert(reports(deleted, q));
        assert(base.files.contains_key(q));
    }
    if exists|q: Seq<char>|
        looked_at(prefix, q) && #[trigger] base.files.contains_key(q) && !target.files.contains_key(
            q,
        ) {
        let q = choose|q: Seq<char>|
            looked_at(prefix, q) && #[trigger] base.files.contains_key(q)
                && !target.files.contains_key(q);
        lemma_lone(base, target, base_paths, prefix, q);
        assert(reports(deleted, q));
    }
    if options.target is None && base.has_hashes {
        let first = match options.verify {
            Verify::Off => Seq::empty(),
            Verify::Suspect => crate::snapshot_laws::paths_of(suspects),
            Verify::All => both,
        };
        let more = if options.detect_renames && added.len() > 0 && deleted.len() > 0 {
            crate::snapshot_laws::paths_of(added)
        } else {
            Seq::empty()
        };
        assert(wanted == first + more);
        lemma_in_either(first, more, path);
    }
}

proof fn lemma_in_either(a: Seq<Seq<char>>, b: Seq<Seq<char>>, x: Seq<char>)
    ensures
        (a + b).contains(x) <==> a.contains(x) || b.contains(x),
{
    if a.contains(x) {
        let i = choose|i: int| 0 <= i < a.len() && a[i] == x;
        assert((a + b)[i] == x);
    }
    if b.contains(x) {
        let i = choose|i: int| 0 <= i < b.len() && b[i] == x;
        assert((a + b)[a.len() + i] == x);
    }
    if (a + b).contains(x) {
        let i = choose|i: int| 0 <= i < (a + b).len() && (a + b)[i] == x;
        if i < a.len() {
            assert(a[i] == x);
        } else {
            assert(b[i - a.len()] == x);
        }
    }
}

} // verus!
