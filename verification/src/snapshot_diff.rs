//! What changed between two snapshots.
use crate::bytes::same_bytes;
use crate::json::{lemma_trees_push, trees, Json, JsonTree};
use crate::path_map::PathMap;
use crate::ranking::{counted_views, rank, ranking};
use crate::snapshot::{entry_views, option_bytes, Entry, EntryView, Snapshot, SnapshotView};
use crate::text::{
    before_last, list_contains, opens, owned, split_before_last, starts_with, texts,
};
use vstd::prelude::*;

verus! {

/// How a changed file was established to have changed.
#[derive(Clone, Copy, Debug, PartialEq, Eq, Structural)]
pub enum Evidence {
    Size,
    Digest,
    Mtime,
    Content,
}

impl Evidence {
    /// The name under which evidence is reported.
    pub open spec fn name(self) -> Seq<char> {
        match self {
            Evidence::Size => "size"@,
            Evidence::Digest => "metadata-digest"@,
            Evidence::Mtime => "mtime"@,
            Evidence::Content => "content-hash"@,
        }
    }

    /// The name under which evidence is reported.
    pub fn as_str(self) -> (r: &'static str)
        ensures
            r@ == self.name(),
    {
        match self {
            Evidence::Size => "size",
            Evidence::Digest => "metadata-digest",
            Evidence::Mtime => "mtime",
            Evidence::Content => "content-hash",
        }
    }
}

/// How far a diff compares content.
#[derive(Clone, Copy, Debug, PartialEq, Eq, Structural)]
pub enum Verify {
    /// Metadata only.
    Off,
    /// Files that metadata alone flagged are compared by content.
    Suspect,
    /// Every file present in both observations is compared by content.
    All,
}

/// One reported file.
#[derive(Debug, PartialEq, Eq)]
pub struct Change {
    pub path: String,
    pub size: u64,
    pub previous_size: Option<u64>,
    pub evidence: Evidence,
}

/// What a [`Change`] reports.
pub struct ChangeView {
    pub path: Seq<char>,
    pub size: u64,
    pub previous_size: Option<u64>,
    pub evidence: Evidence,
}

impl View for Change {
    type V = ChangeView;

    open spec fn view(&self) -> ChangeView {
        ChangeView {
            path: self.path@,
            size: self.size,
            previous_size: self.previous_size,
            evidence: self.evidence,
        }
    }
}

/// What a list of changes reports.
pub open spec fn change_views(changes: Seq<Change>) -> Seq<ChangeView> {
    changes.map_values(|c: Change| c@)
}

/// Whether metadata says that a file changed, and on what grounds: its size,
/// the digests where both are there, or else the whole-second times.
pub open spec fn metadata_change(previous: EntryView, current: EntryView) -> Option<Evidence> {
    if previous.size != current.size {
        Some(Evidence::Size)
    } else {
        match (previous.digest, current.digest) {
            (Some(before), Some(after)) => if before != after {
                Some(Evidence::Digest)
            } else {
                None
            },
            _ => if previous.mtime != current.mtime {
                Some(Evidence::Mtime)
            } else {
                None
            },
        }
    }
}

/// Whether a file changed, where the content's hash is now `hash`: by its size,
/// by content where both hashes are there, or else by metadata.
pub open spec fn content_change(
    previous: EntryView,
    current: EntryView,
    hash: Option<Seq<u8>>,
) -> Option<Evidence> {
    if previous.size != current.size {
        Some(Evidence::Size)
    } else {
        match (previous.hash, hash) {
            (Some(before), Some(after)) => if before != after {
                Some(Evidence::Content)
            } else {
                None
            },
            _ => metadata_change(previous, current),
        }
    }
}

/// Whether a path lies in the part of the tree that is compared.
pub open spec fn in_scope(prefix: Option<Seq<char>>, path: Seq<char>) -> bool {
    match prefix {
        Some(prefix) => opens(path, prefix),
        None => true,
    }
}

/// The view of a text that may be absent.
pub open spec fn option_text(text: Option<String>) -> Option<Seq<char>> {
    match text {
        Some(text) => Some(text@),
        None => None,
    }
}

/// The report of a file that only one observation holds.
pub open spec fn lone_change(path: Seq<char>, entry: EntryView) -> ChangeView {
    ChangeView { path, size: entry.size, previous_size: None, evidence: Evidence::Size }
}

/// The report of a path that `here` holds and `there` does not.
pub open spec fn lone_report(
    here: Map<Seq<char>, EntryView>,
    there: Map<Seq<char>, EntryView>,
    prefix: Option<Seq<char>>,
    path: Seq<char>,
) -> Option<ChangeView> {
    if in_scope(prefix, path) && here.contains_key(path) && !there.contains_key(path) {
        Some(lone_change(path, here[path]))
    } else {
        None
    }
}

/// The files that `here` holds and `there` does not, in the order of `paths`.
pub open spec fn only_in(
    paths: Seq<Seq<char>>,
    here: Map<Seq<char>, EntryView>,
    there: Map<Seq<char>, EntryView>,
    prefix: Option<Seq<char>>,
) -> Seq<ChangeView> {
    paths.filter_map(|path: Seq<char>| lone_report(here, there, prefix, path))
}

/// Whether both observations hold a path that is compared.
pub open spec fn shared(
    base: Map<Seq<char>, EntryView>,
    target: Map<Seq<char>, EntryView>,
    prefix: Option<Seq<char>>,
    path: Seq<char>,
) -> bool {
    in_scope(prefix, path) && base.contains_key(path) && target.contains_key(path)
}

/// The report of a path that both observations hold, where it changed.
pub open spec fn change_report(
    base: Map<Seq<char>, EntryView>,
    target: Map<Seq<char>, EntryView>,
    prefix: Option<Seq<char>>,
    path: Seq<char>,
    evidence: Option<Evidence>,
) -> Option<ChangeView> {
    if !shared(base, target, prefix, path) {
        None
    } else {
        match evidence {
            Some(evidence) => Some(
                ChangeView {
                    path,
                    size: target[path].size,
                    previous_size: Some(base[path].size),
                    evidence,
                },
            ),
            None => None,
        }
    }
}

/// The files that metadata says changed.
pub open spec fn changed_by_metadata(
    paths: Seq<Seq<char>>,
    base: Map<Seq<char>, EntryView>,
    target: Map<Seq<char>, EntryView>,
    prefix: Option<Seq<char>>,
) -> Seq<ChangeView> {
    paths.filter_map(
        |path: Seq<char>|
            change_report(base, target, prefix, path, metadata_change(base[path], target[path])),
    )
}

/// The hash that a path's content has now, where it is known.
pub open spec fn hash_at(hashes: Map<Seq<char>, Seq<u8>>, path: Seq<char>) -> Option<Seq<u8>> {
    if hashes.contains_key(path) {
        Some(hashes[path])
    } else {
        None
    }
}

/// The files that changed, content being compared wherever it can be.
pub open spec fn changed_by_content(
    paths: Seq<Seq<char>>,
    base: Map<Seq<char>, EntryView>,
    target: Map<Seq<char>, EntryView>,
    prefix: Option<Seq<char>>,
    hashes: Map<Seq<char>, Seq<u8>>,
) -> Seq<ChangeView> {
    paths.filter_map(
        |path: Seq<char>|
            change_report(
                base,
                target,
                prefix,
                path,
                content_change(base[path], target[path], hash_at(hashes, path)),
            ),
    )
}

/// The number of paths with a property.
pub open spec fn count_of(paths: Seq<Seq<char>>, p: spec_fn(Seq<char>) -> bool) -> nat
    decreases paths.len(),
{
    if paths.len() == 0 {
        0
    } else {
        count_of(paths.drop_last(), p) + if p(paths.last()) {
            1nat
        } else {
            0nat
        }
    }
}

fn same_hash<const N: usize>(a: &Option<[u8; N]>, b: &Option<[u8; N]>) -> (r: Option<bool>)
    ensures
        r == (match (*a, *b) {
            (Some(x), Some(y)) => Some(x@ == y@),
            _ => None,
        }),
{
    match (a, b) {
        (Some(x), Some(y)) => Some(same_bytes(x, y)),
        _ => None,
    }
}

/// Whether metadata says that a file changed.
pub fn changed(previous: &Entry, current: &Entry) -> (r: Option<Evidence>)
    ensures
        r == metadata_change(previous@, current@),
{
    if previous.size != current.size {
        return Some(Evidence::Size);
    }
    match same_hash(&previous.digest, &current.digest) {
        Some(true) => None,
        Some(false) => Some(Evidence::Digest),
        None => if previous.mtime != current.mtime {
            Some(Evidence::Mtime)
        } else {
            None
        },
    }
}

/// Whether a file changed, its content being compared where both hashes are
/// there.
pub fn changed_content(previous: &Entry, current: &Entry, hash: &Option<[u8; 32]>) -> (r: Option<
    Evidence,
>)
    ensures
        r == content_change(previous@, current@, option_bytes(*hash)),
{
    if previous.size != current.size {
        return Some(Evidence::Size);
    }
    match same_hash(&previous.hash, hash) {
        Some(true) => None,
        Some(false) => Some(Evidence::Content),
        None => changed(previous, current),
    }
}

pub fn keep(prefix: &Option<String>, path: &str) -> (r: bool)
    ensures
        r == in_scope(option_text(*prefix), path@),
{
    match prefix {
        Some(prefix) => starts_with(path, prefix.as_str()),
        None => true,
    }
}

proof fn lemma_filter_map_step<B>(
    paths: Seq<Seq<char>>,
    f: spec_fn(Seq<char>) -> Option<B>,
    i: int,
)
    requires
        0 <= i < paths.len(),
    ensures
        paths.take(i + 1).filter_map(f) == (match f(paths[i]) {
            Some(b) => paths.take(i).filter_map(f).push(b),
            None => paths.take(i).filter_map(f),
        }),
{
    assert(paths.take(i + 1).drop_last() =~= paths.take(i));
    assert(paths.take(i + 1).last() == paths[i]);
    match f(paths[i]) {
        Some(b) => {
            assert(paths.take(i).filter_map(f) + seq![b] =~= paths.take(i).filter_map(f).push(b));
        },
        None => {},
    }
}

proof fn lemma_push_change(changes: Seq<Change>, c: Change)
    ensures
        change_views(changes.push(c)) == change_views(changes).push(c@),
{
    assert(change_views(changes.push(c)) =~= change_views(changes).push(c@));
}

/// The files that one observation holds and the other does not.
pub fn list_only_in(
    here: &PathMap<Entry>,
    there: &PathMap<Entry>,
    prefix: &Option<String>,
) -> (r: Vec<Change>)
    requires
        here.wf(),
        there.wf(),
    ensures
        change_views(r@) == only_in(
            here.keys(),
            entry_views(here@),
            entry_views(there@),
            option_text(*prefix),
        ),
{
    let mut out: Vec<Change> = Vec::new();
    let ghost paths = here.keys();
    let ghost a = entry_views(here@);
    let ghost b = entry_views(there@);
    let ghost p = option_text(*prefix);
    let ghost f = |path: Seq<char>| lone_report(a, b, p, path);
    let total: usize = here.len();
    let mut i: usize = 0;
    assert(change_views(out@) =~= paths.take(0).filter_map(f));
    while i < total
        invariant
            i <= total,
            total == paths.len(),
            paths == here.keys(),
            here.wf(),
            there.wf(),
            a == entry_views(here@),
            b == entry_views(there@),
            p == option_text(*prefix),
            f == (|path: Seq<char>| lone_report(a, b, p, path)),
            change_views(out@) == paths.take(i as int).filter_map(f),
        decreases total - i,
    {
        let path = here.key_at(i);
        let entry = here.value_at(i);
        proof {
            lemma_filter_map_step(paths, f, i as int);
        }
        if keep(prefix, path) && !there.contains_key(path) {
            let c = Change {
                path: owned(path),
                size: entry.size,
                previous_size: None,
                evidence: Evidence::Size,
            };
            proof {
                lemma_push_change(out@, c);
            }
            out.push(c);
        }
        i += 1;
    }
    assert(paths.take(total as int) =~= paths);
    out
}

/// The files that metadata says changed.
pub fn list_changed(base: &PathMap<Entry>, target: &PathMap<Entry>, prefix: &Option<String>) -> (r: Vec<
    Change,
>)
    requires
        base.wf(),
        target.wf(),
    ensures
        change_views(r@) == changed_by_metadata(
            target.keys(),
            entry_views(base@),
            entry_views(target@),
            option_text(*prefix),
        ),
{
    let mut out: Vec<Change> = Vec::new();
    let ghost paths = target.keys();
    let ghost a = entry_views(base@);
    let ghost b = entry_views(target@);
    let ghost p = option_text(*prefix);
    let ghost f = |path: Seq<char>|
        change_report(a, b, p, path, metadata_change(a[path], b[path]));
    let total: usize = target.len();
    let mut i: usize = 0;
    assert(change_views(out@) =~= paths.take(0).filter_map(f));
    while i < total
        invariant
            i <= total,
            total == paths.len(),
            paths == target.keys(),
            base.wf(),
            target.wf(),
            a == entry_views(base@),
            b == entry_views(target@),
            p == option_text(*prefix),
            f == (|path: Seq<char>|
                change_report(a, b, p, path, metadata_change(a[path], b[path]))),
            change_views(out@) == paths.take(i as int).filter_map(f),
        decreases total - i,
    {
        let path = target.key_at(i);
        let entry = target.value_at(i);
        proof {
            lemma_filter_map_step(paths, f, i as int);
        }
        if keep(prefix, path) {
            if let Some(previous) = base.get(path) {
                if let Some(evidence) = changed(previous, entry) {
                    let c = Change {
                        path: owned(path),
                        size: entry.size,
                        previous_size: Some(previous.size),
                        evidence,
                    };
                    proof {
                        lemma_push_change(out@, c);
                    }
                    out.push(c);
                }
            }
        }
        i += 1;
    }
    assert(paths.take(total as int) =~= paths);
    out
}

/// The hashes that the observation itself recorded.
pub open spec fn stored_hashes(files: Map<Seq<char>, EntryView>) -> Map<Seq<char>, Seq<u8>> {
    Map::new(
        |path: Seq<char>| files.contains_key(path) && files[path].hash is Some,
        |path: Seq<char>| files[path].hash->0,
    )
}

/// The hashes of a list that was read.
pub open spec fn hash_views(hashes: Map<Seq<char>, [u8; 32]>) -> Map<Seq<char>, Seq<u8>> {
    hashes.map_values(|h: [u8; 32]| h@)
}

/// The hashes against which the base is compared: those read now for a live
/// target, those it recorded for a stored one.
pub open spec fn target_hashes(
    target: SnapshotView,
    live: bool,
    read: Map<Seq<char>, Seq<u8>>,
) -> Map<Seq<char>, Seq<u8>> {
    if live {
        read
    } else {
        stored_hashes(target.files)
    }
}

/// What content verification came to.
#[derive(Clone, Copy, Debug, PartialEq, Eq, Structural)]
pub enum Verification {
    /// It was not asked for.
    Off,
    /// The base recorded no hashes to compare with.
    NoBaseHashes(Verify),
    /// The stored target recorded no hashes to compare.
    NoTargetHashes(Verify),
    Suspect { hashed: u64, cleared: u64 },
    All { compared: u64, cleared: u64, content_only: u64 },
}

/// Whether a flagged file's content is what the base recorded; a change of
/// size is not questioned.
pub open spec fn is_cleared(
    change: ChangeView,
    base: Map<Seq<char>, EntryView>,
    hashes: Map<Seq<char>, Seq<u8>>,
) -> bool {
    &&& change.evidence != Evidence::Size
    &&& base.contains_key(change.path)
    &&& base[change.path].hash is Some
    &&& hash_at(hashes, change.path) == base[change.path].hash
}

/// The changes that remain once flagged files with unchanged content are gone.
pub open spec fn not_cleared(
    flagged: Seq<ChangeView>,
    base: Map<Seq<char>, EntryView>,
    hashes: Map<Seq<char>, Seq<u8>>,
) -> Seq<ChangeView> {
    flagged.filter(|c: ChangeView| !is_cleared(c, base, hashes))
}

/// The files that metadata flagged without a change of size.
pub open spec fn suspects(flagged: Seq<ChangeView>) -> Seq<ChangeView> {
    flagged.filter(|c: ChangeView| c.evidence != Evidence::Size)
}

/// Whether the content of a shared path can be compared.
pub open spec fn is_compared(
    base: Map<Seq<char>, EntryView>,
    target: Map<Seq<char>, EntryView>,
    prefix: Option<Seq<char>>,
    hashes: Map<Seq<char>, Seq<u8>>,
    path: Seq<char>,
) -> bool {
    shared(base, target, prefix, path) && base[path].hash is Some && hashes.contains_key(path)
}

/// Whether metadata flags a shared path whose content is unchanged.
pub open spec fn is_flagged_identical(
    base: Map<Seq<char>, EntryView>,
    target: Map<Seq<char>, EntryView>,
    prefix: Option<Seq<char>>,
    hashes: Map<Seq<char>, Seq<u8>>,
    path: Seq<char>,
) -> bool {
    &&& shared(base, target, prefix, path)
    &&& metadata_change(base[path], target[path]) is Some
    &&& content_change(base[path], target[path], hash_at(hashes, path)) is None
}

/// Whether a shared path changed and metadata shows nothing of it.
pub open spec fn is_content_only(
    base: Map<Seq<char>, EntryView>,
    target: Map<Seq<char>, EntryView>,
    prefix: Option<Seq<char>>,
    hashes: Map<Seq<char>, Seq<u8>>,
    path: Seq<char>,
) -> bool {
    &&& shared(base, target, prefix, path)
    &&& metadata_change(base[path], target[path]) is None
    &&& content_change(base[path], target[path], hash_at(hashes, path)) is Some
}

/// The modified files of a diff and what verification came to. `paths` are the
/// target's paths in order.
pub open spec fn verified(
    base: SnapshotView,
    target: SnapshotView,
    paths: Seq<Seq<char>>,
    prefix: Option<Seq<char>>,
    verify: Verify,
    live: bool,
    read: Map<Seq<char>, Seq<u8>>,
) -> (Seq<ChangeView>, Verification) {
    let flagged = changed_by_metadata(paths, base.files, target.files, prefix);
    let hashes = target_hashes(target, live, read);
    if verify == Verify::Off {
        (flagged, Verification::Off)
    } else if !base.has_hashes {
        (flagged, Verification::NoBaseHashes(verify))
    } else if !live && !target.has_hashes {
        (flagged, Verification::NoTargetHashes(verify))
    } else if verify == Verify::Suspect {
        let kept = not_cleared(flagged, base.files, hashes);
        (
            kept,
            Verification::Suspect {
                hashed: suspects(flagged).len() as u64,
                cleared: (flagged.len() - kept.len()) as u64,
            },
        )
    } else {
        (
            changed_by_content(paths, base.files, target.files, prefix, hashes),
            Verification::All {
                compared: count_of(
                    paths,
                    |p: Seq<char>| is_compared(base.files, target.files, prefix, hashes, p),
                ) as u64,
                cleared: count_of(
                    paths,
                    |p: Seq<char>|
                        is_flagged_identical(base.files, target.files, prefix, hashes, p),
                ) as u64,
                content_only: count_of(
                    paths,
                    |p: Seq<char>| is_content_only(base.files, target.files, prefix, hashes, p),
                ) as u64,
            },
        )
    }
}

/// The hash of a path's content as the target has it.
fn target_hash(
    target: &Snapshot,
    live: bool,
    read: &PathMap<[u8; 32]>,
    path: &str,
) -> (r: Option<[u8; 32]>)
    requires
        target.wf(),
        read.wf(),
    ensures
        option_bytes(r) == hash_at(
            target_hashes(target@, live, hash_views(read@)),
            path@,
        ),
{
    if live {
        match read.get(path) {
            Some(hash) => Some(*hash),
            None => None,
        }
    } else {
        match target.files.get(path) {
            Some(entry) => entry.hash,
            None => None,
        }
    }
}

fn cleared(
    change: &Change,
    base: &Snapshot,
    target: &Snapshot,
    live: bool,
    read: &PathMap<[u8; 32]>,
) -> (r: bool)
    requires
        base.wf(),
        target.wf(),
        read.wf(),
    ensures
        r == is_cleared(
            change@,
            base@.files,
            target_hashes(target@, live, hash_views(read@)),
        ),
{
    if change.evidence == Evidence::Size {
        return false;
    }
    match base.files.get(change.path.as_str()) {
        Some(previous) => {
            let now = target_hash(target, live, read, change.path.as_str());
            match same_hash(&previous.hash, &now) {
                Some(equal) => equal,
                None => false,
            }
        },
        None => false,
    }
}

/// Drops the flagged files whose content is what the base recorded.
fn verify_suspects(
    base: &Snapshot,
    target: &Snapshot,
    flagged: Vec<Change>,
    live: bool,
    read: &PathMap<[u8; 32]>,
) -> (r: (Vec<Change>, Verification))
    requires
        base.wf(),
        target.wf(),
        read.wf(),
    ensures
        ({
            let hashes = target_hashes(target@, live, hash_views(read@));
            let before = change_views(flagged@);
            let kept = not_cleared(before, base@.files, hashes);
            change_views(r.0@) == kept && r.1 == (Verification::Suspect {
                hashed: suspects(before).len() as u64,
                cleared: (before.len() - kept.len()) as u64,
            })
        }),
{
    let ghost hashes = target_hashes(target@, live, hash_views(read@));
    let ghost all = change_views(flagged@);
    let ghost keeps = |c: ChangeView| !is_cleared(c, base@.files, hashes);
    let ghost suspect = |c: ChangeView| c.evidence != Evidence::Size;
    let total: usize = flagged.len();
    let mut out: Vec<Change> = Vec::new();
    let mut hashed: usize = 0;
    let ghost changes = flagged@;
    proof {
        reveal(Seq::filter);
        assert(change_views(out@) =~= all.take(0).filter(keeps));
    }
    for change in it: flagged.into_iter()
        invariant
            it.seq() == changes,
            all == change_views(changes),
            total == changes.len(),
            base.wf(),
            target.wf(),
            read.wf(),
            hashes == target_hashes(target@, live, hash_views(read@)),
            keeps == (|c: ChangeView| !is_cleared(c, base@.files, hashes)),
            suspect == (|c: ChangeView| c.evidence != Evidence::Size),
            change_views(out@) == all.take(it.index()).filter(keeps),
            hashed == all.take(it.index()).filter(suspect).len(),
            hashed <= it.index(),
            out@.len() <= it.index(),
    {
        let ghost i = it.index();
        proof {
            reveal(Seq::filter);
            assert(all.take(i + 1).drop_last() =~= all.take(i));
            assert(all.take(i + 1).last() == change@);
        }
        if change.evidence != Evidence::Size {
            hashed += 1;
        }
        if !cleared(&change, base, target, live, read) {
            proof {
                lemma_push_change(out@, change);
            }
            out.push(change);
        }
    }
    assert(all.take(total as int) =~= all);
    let gone: usize = total - out.len();
    (out, Verification::Suspect { hashed: hashed as u64, cleared: gone as u64 })
}

proof fn lemma_count_step(paths: Seq<Seq<char>>, p: spec_fn(Seq<char>) -> bool, i: int)
    requires
        0 <= i < paths.len(),
    ensures
        count_of(paths.take(i + 1), p) == count_of(paths.take(i), p) + if p(paths[i]) {
            1nat
        } else {
            0nat
        },
{
    assert(paths.take(i + 1).drop_last() =~= paths.take(i));
    assert(paths.take(i + 1).last() == paths[i]);
}

/// Compares every shared file by content.
fn verify_all(
    base: &Snapshot,
    target: &Snapshot,
    prefix: &Option<String>,
    live: bool,
    read: &PathMap<[u8; 32]>,
) -> (r: (Vec<Change>, Verification))
    requires
        base.wf(),
        target.wf(),
        read.wf(),
    ensures
        ({
            let hashes = target_hashes(target@, live, hash_views(read@));
            let a = base@.files;
            let b = target@.files;
            let p = option_text(*prefix);
            let paths = target.files.keys();
            change_views(r.0@) == changed_by_content(paths, a, b, p, hashes) && r.1 == (
            Verification::All {
                compared: count_of(paths, |x: Seq<char>| is_compared(a, b, p, hashes, x)) as u64,
                cleared: count_of(
                    paths,
                    |x: Seq<char>| is_flagged_identical(a, b, p, hashes, x),
                ) as u64,
                content_only: count_of(
                    paths,
                    |x: Seq<char>| is_content_only(a, b, p, hashes, x),
                ) as u64,
            })
        }),
{
    let ghost hashes = target_hashes(target@, live, hash_views(read@));
    let ghost a = base@.files;
    let ghost b = target@.files;
    let ghost p = option_text(*prefix);
    let ghost paths = target.files.keys();
    let ghost f = |x: Seq<char>|
        change_report(a, b, p, x, content_change(a[x], b[x], hash_at(hashes, x)));
    let ghost compares = |x: Seq<char>| is_compared(a, b, p, hashes, x);
    let ghost clears = |x: Seq<char>| is_flagged_identical(a, b, p, hashes, x);
    let ghost hidden = |x: Seq<char>| is_content_only(a, b, p, hashes, x);
    let mut out: Vec<Change> = Vec::new();
    let mut compared: usize = 0;
    let mut identical: usize = 0;
    let mut content_only: usize = 0;
    let total: usize = target.files.len();
    let mut i: usize = 0;
    assert(change_views(out@) =~= paths.take(0).filter_map(f));
    while i < total
        invariant
            i <= total,
            total == paths.len(),
            paths == target.files.keys(),
            base.wf(),
            target.wf(),
            read.wf(),
            hashes == target_hashes(target@, live, hash_views(read@)),
            a == base@.files,
            b == target@.files,
            p == option_text(*prefix),
            f == (|x: Seq<char>|
                change_report(a, b, p, x, content_change(a[x], b[x], hash_at(hashes, x)))),
            compares == (|x: Seq<char>| is_compared(a, b, p, hashes, x)),
            clears == (|x: Seq<char>| is_flagged_identical(a, b, p, hashes, x)),
            hidden == (|x: Seq<char>| is_content_only(a, b, p, hashes, x)),
            change_views(out@) == paths.take(i as int).filter_map(f),
            compared == count_of(paths.take(i as int), compares),
            identical == count_of(paths.take(i as int), clears),
            content_only == count_of(paths.take(i as int), hidden),
            compared <= i,
            identical <= i,
            content_only <= i,
        decreases total - i,
    {
        let path = target.files.key_at(i);
        let entry = target.files.value_at(i);
        proof {
            lemma_filter_map_step(paths, f, i as int);
            lemma_count_step(paths, compares, i as int);
            lemma_count_step(paths, clears, i as int);
            lemma_count_step(paths, hidden, i as int);
        }
        if keep(prefix, path) {
            if let Some(previous) = base.files.get(path) {
                let now = target_hash(target, live, read, path);
                assert(a[path@] == previous@);
                assert(b[path@] == entry@);
                if previous.hash.is_some() && now.is_some() {
                    compared += 1;
                }
                let flagged = changed(previous, entry);
                match changed_content(previous, entry, &now) {
                    Some(evidence) => {
                        if flagged.is_none() {
                            content_only += 1;
                        }
                        let c = Change {
                            path: owned(path),
                            size: entry.size,
                            previous_size: Some(previous.size),
                            evidence,
                        };
                        proof {
                            lemma_push_change(out@, c);
                        }
                        out.push(c);
                    },
                    None => {
                        if flagged.is_some() {
                            identical += 1;
                        }
                    },
                }
            }
        }
        i += 1;
    }
    assert(paths.take(total as int) =~= paths);
    (
        out,
        Verification::All {
            compared: compared as u64,
            cleared: identical as u64,
            content_only: content_only as u64,
        },
    )
}

/// The modified files of a diff and what content verification came to.
///
/// Only a base that recorded content hashes supports verification: without one
/// there is nothing to compare content against, and the answer says so.
pub fn verify_changes(
    base: &Snapshot,
    target: &Snapshot,
    prefix: &Option<String>,
    verify: Verify,
    live: bool,
    read: &PathMap<[u8; 32]>,
) -> (r: (Vec<Change>, Verification))
    requires
        base.wf(),
        target.wf(),
        read.wf(),
    ensures
        (change_views(r.0@), r.1) == verified(
            base@,
            target@,
            target.files.keys(),
            option_text(*prefix),
            verify,
            live,
            hash_views(read@),
        ),
{
    if verify == Verify::All && base.has_hashes && (live || target.has_hashes) {
        return verify_all(base, target, prefix, live, read);
    }
    let flagged = list_changed(&base.files, &target.files, prefix);
    if verify == Verify::Off {
        return (flagged, Verification::Off);
    }
    if !base.has_hashes {
        return (flagged, Verification::NoBaseHashes(verify));
    }
    if !live && !target.has_hashes {
        return (flagged, Verification::NoTargetHashes(verify));
    }
    verify_suspects(base, target, flagged, live, read)
}

/// The path a file had and the path it has now.
#[derive(Debug, PartialEq, Eq)]
pub struct Rename {
    pub from: String,
    pub to: String,
}

/// The paths of renames, each from and to.
pub open spec fn rename_views(renames: Seq<Rename>) -> Seq<(Seq<char>, Seq<char>)> {
    renames.map_values(|r: Rename| (r.from@, r.to@))
}

/// The deleted paths by the hash of their content; of two with the same
/// content the last.
pub open spec fn rename_sources(
    deleted: Seq<ChangeView>,
    base: Map<Seq<char>, EntryView>,
) -> Map<Seq<u8>, Seq<char>>
    decreases deleted.len(),
{
    if deleted.len() == 0 {
        Map::empty()
    } else {
        let front = rename_sources(deleted.drop_last(), base);
        let path = deleted.last().path;
        if base.contains_key(path) && base[path].hash is Some {
            front.insert(base[path].hash->0, path)
        } else {
            front
        }
    }
}

/// Pairs each added path with a deleted one of the same content, a deleted
/// path being used once; the second value is what is left of the deleted ones.
pub open spec fn pair_renames(
    added: Seq<ChangeView>,
    hashes: Map<Seq<char>, Seq<u8>>,
    sources: Map<Seq<u8>, Seq<char>>,
) -> (Seq<(Seq<char>, Seq<char>)>, Map<Seq<u8>, Seq<char>>)
    decreases added.len(),
{
    if added.len() == 0 {
        (Seq::empty(), sources)
    } else {
        let (front, left) = pair_renames(added.drop_last(), hashes, sources);
        let path = added.last().path;
        if hashes.contains_key(path) && left.contains_key(hashes[path]) {
            (front.push((left[hashes[path]], path)), left.remove(hashes[path]))
        } else {
            (front, left)
        }
    }
}

/// The renames among added and deleted files. They can be told only from a
/// hashed base and a live target.
pub open spec fn renames(
    added: Seq<ChangeView>,
    deleted: Seq<ChangeView>,
    base: SnapshotView,
    live: bool,
    read: Map<Seq<char>, Seq<u8>>,
) -> Seq<(Seq<char>, Seq<char>)> {
    if !base.has_hashes || !live {
        Seq::empty()
    } else {
        pair_renames(added, read, rename_sources(deleted, base.files)).0
    }
}

/// The files among `added` that are not the target of a rename.
pub open spec fn not_renamed_to(
    added: Seq<ChangeView>,
    renamed: Seq<(Seq<char>, Seq<char>)>,
) -> Seq<ChangeView> {
    added.filter(
        |c: ChangeView| !renamed.map_values(|r: (Seq<char>, Seq<char>)| r.1).contains(c.path),
    )
}

/// The files among `deleted` that are not the source of a rename.
pub open spec fn not_renamed_from(
    deleted: Seq<ChangeView>,
    renamed: Seq<(Seq<char>, Seq<char>)>,
) -> Seq<ChangeView> {
    deleted.filter(
        |c: ChangeView| !renamed.map_values(|r: (Seq<char>, Seq<char>)| r.0).contains(c.path),
    )
}

/// A hash as text, one character for each byte.
spec fn hash_key(hash: Seq<u8>) -> Seq<char> {
    hash.map_values(|b: u8| b as char)
}

proof fn lemma_hash_key_injective(a: Seq<u8>, b: Seq<u8>)
    ensures
        hash_key(a) == hash_key(b) ==> a == b,
{
    if hash_key(a) == hash_key(b) {
        assert(hash_key(a).len() == a.len());
        assert(hash_key(b).len() == b.len());
        assert forall|i: int| 0 <= i < a.len() implies a[i] == b[i] by {
            assert(hash_key(a)[i] == hash_key(b)[i]);
        }
        assert(a =~= b);
    }
}

fn key_of_hash(hash: &[u8; 32]) -> (r: String)
    ensures
        r@ == hash_key(hash@),
{
    let mut out = String::new();
    let mut i: usize = 0;
    while i < 32
        invariant
            i <= 32,
            hash@.len() == 32,
            out@ == hash_key(hash@.take(i as int)),
        decreases 32 - i,
    {
        out.push(hash[i] as char);
        assert(hash_key(hash@.take(i + 1)) =~= hash_key(hash@.take(i as int)).push(
            hash@[i as int] as char,
        ));
        i += 1;
    }
    assert(hash@.take(32) =~= hash@);
    out
}

/// Whether a map keyed by hash texts holds what `sources` holds.
spec fn same_sources(map: Map<Seq<char>, String>, sources: Map<Seq<u8>, Seq<char>>) -> bool {
    forall|h: Seq<u8>|
        #![trigger sources.contains_key(h)]
        #![trigger sources[h]]
        sources.contains_key(h) == map.contains_key(hash_key(h)) && (sources.contains_key(h)
            ==> map[hash_key(h)]@ == sources[h])
}

fn collect_sources(deleted: &Vec<Change>, base: &Snapshot) -> (r: PathMap<String>)
    requires
        base.wf(),
    ensures
        r.wf(),
        same_sources(r@, rename_sources(change_views(deleted@), base@.files)),
{
    let mut map: PathMap<String> = PathMap::new();
    let mut i: usize = 0;
    let ghost all = change_views(deleted@);
    while i < deleted.len()
        invariant
            i <= deleted@.len(),
            base.wf(),
            map.wf(),
            all == change_views(deleted@),
            same_sources(map@, rename_sources(all.take(i as int), base@.files)),
        decreases deleted@.len() - i,
    {
        let ghost front = rename_sources(all.take(i as int), base@.files);
        let ghost before = map@;
        proof {
            assert(all.take(i + 1).drop_last() =~= all.take(i as int));
            assert(all.take(i + 1).last() == deleted@[i as int]@);
        }
        if let Some(entry) = base.files.get(deleted[i].path.as_str()) {
            if let Some(hash) = &entry.hash {
                let key = key_of_hash(hash);
                map.insert(key, deleted[i].path.clone());
                proof {
                    let after = rename_sources(all.take(i + 1), base@.files);
                    assert(after == front.insert(hash@, deleted@[i as int].path@));
                    assert forall|h: Seq<u8>|
                        #![trigger after.contains_key(h)]
                        #![trigger after[h]]
                        after.contains_key(h) == map@.contains_key(hash_key(h)) && (
                        after.contains_key(h) ==> map@[hash_key(h)]@ == after[h]) by {
                        lemma_hash_key_injective(h, hash@);
                        assert(front.contains_key(h) == before.contains_key(hash_key(h)));
                    }
                }
            }
        }
        i += 1;
    }
    assert(all.take(all.len() as int) =~= all);
    map
}

proof fn lemma_push_rename(renames: Seq<Rename>, r: Rename)
    ensures
        rename_views(renames.push(r)) == rename_views(renames).push((r.from@, r.to@)),
{
    assert(rename_views(renames.push(r)) =~= rename_views(renames).push((r.from@, r.to@)));
}

fn collect_renames(
    added: &Vec<Change>,
    read: &PathMap<[u8; 32]>,
    sources: PathMap<String>,
    Ghost(by_hash): Ghost<Map<Seq<u8>, Seq<char>>>,
) -> (r: Vec<Rename>)
    requires
        read.wf(),
        sources.wf(),
        same_sources(sources@, by_hash),
    ensures
        rename_views(r@) == pair_renames(change_views(added@), hash_views(read@), by_hash).0,
{
    let mut sources = sources;
    let mut out: Vec<Rename> = Vec::new();
    let ghost all = change_views(added@);
    let ghost hashes = hash_views(read@);
    let mut i: usize = 0;
    assert(rename_views(out@) =~= Seq::<(Seq<char>, Seq<char>)>::empty());
    while i < added.len()
        invariant
            i <= added@.len(),
            read.wf(),
            sources.wf(),
            all == change_views(added@),
            hashes == hash_views(read@),
            rename_views(out@) == pair_renames(all.take(i as int), hashes, by_hash).0,
            same_sources(sources@, pair_renames(all.take(i as int), hashes, by_hash).1),
        decreases added@.len() - i,
    {
        let path = added[i].path.as_str();
        let ghost left = pair_renames(all.take(i as int), hashes, by_hash).1;
        let ghost before = sources@;
        proof {
            assert(all.take(i + 1).drop_last() =~= all.take(i as int));
            assert(all.take(i + 1).last() == added@[i as int]@);
        }
        if let Some(hash) = read.get(path) {
            assert(hashes[path@] == hash@);
            let key = key_of_hash(hash);
            assert(left.contains_key(hash@) == before.contains_key(hash_key(hash@)));
            if let Some(source) = sources.get(key.as_str()) {
                let rename = Rename { from: source.clone(), to: owned(path) };
                proof {
                    lemma_push_rename(out@, rename);
                }
                out.push(rename);
                let _ = sources.remove(key.as_str());
                proof {
                    let after = left.remove(hash@);
                    assert forall|h: Seq<u8>|
                        #![trigger after.contains_key(h)]
                        #![trigger after[h]]
                        after.contains_key(h) == sources@.contains_key(hash_key(h)) && (
                        after.contains_key(h) ==> sources@[hash_key(h)]@ == after[h]) by {
                        lemma_hash_key_injective(h, hash@);
                        assert(left.contains_key(h) == before.contains_key(hash_key(h)));
                    }
                }
            }
        }
        i += 1;
    }
    assert(all.take(all.len() as int) =~= all);
    out
}

/// What is left of a list once the changes of the listed paths are gone.
fn without_paths(changes: Vec<Change>, gone: &Vec<String>) -> (r: Vec<Change>)
    ensures
        change_views(r@) == change_views(changes@).filter(
            |c: ChangeView| !texts(gone@).contains(c.path),
        ),
{
    let mut out: Vec<Change> = Vec::new();
    let ghost items = changes@;
    let ghost all = change_views(changes@);
    let ghost stays = |c: ChangeView| !texts(gone@).contains(c.path);
    proof {
        reveal(Seq::filter);
        assert(change_views(out@) =~= all.take(0).filter(stays));
    }
    for change in it: changes.into_iter()
        invariant
            it.seq() == items,
            all == change_views(items),
            stays == (|c: ChangeView| !texts(gone@).contains(c.path)),
            change_views(out@) == all.take(it.index()).filter(stays),
    {
        let ghost i = it.index();
        proof {
            reveal(Seq::filter);
            assert(all.take(i + 1).drop_last() =~= all.take(i));
            assert(all.take(i + 1).last() == change@);
        }
        if !list_contains(gone, change.path.as_str()) {
            proof {
                lemma_push_change(out@, change);
            }
            out.push(change);
        }
    }
    assert(all.take(all.len() as int) =~= all);
    out
}

/// Pairs deletions with additions that carry the same content: the renames,
/// and what is left of the additions and of the deletions.
pub fn detect_renamed(
    base: &Snapshot,
    added: Vec<Change>,
    deleted: Vec<Change>,
    live: bool,
    read: &PathMap<[u8; 32]>,
) -> (r: (Vec<Rename>, Vec<Change>, Vec<Change>))
    requires
        base.wf(),
        read.wf(),
    ensures
        ({
            let renamed = renames(
                change_views(added@),
                change_views(deleted@),
                base@,
                live,
                hash_views(read@),
            );
            &&& rename_views(r.0@) == renamed
            &&& change_views(r.1@) == not_renamed_to(change_views(added@), renamed)
            &&& change_views(r.2@) == not_renamed_from(change_views(deleted@), renamed)
        }),
{
    let renamed: Vec<Rename> = if !base.has_hashes || !live {
        let none: Vec<Rename> = Vec::new();
        assert(rename_views(none@) =~= Seq::<(Seq<char>, Seq<char>)>::empty());
        none
    } else {
        let sources = collect_sources(&deleted, base);
        collect_renames(
            &added,
            read,
            sources,
            Ghost(rename_sources(change_views(deleted@), base@.files)),
        )
    };
    let mut from: Vec<String> = Vec::new();
    let mut to: Vec<String> = Vec::new();
    let mut i: usize = 0;
    while i < renamed.len()
        invariant
            i <= renamed@.len(),
            from@.len() == i,
            to@.len() == i,
            forall|k: int| 0 <= k < i ==> #[trigger] from@[k] == renamed@[k].from,
            forall|k: int| 0 <= k < i ==> #[trigger] to@[k] == renamed@[k].to,
        decreases renamed@.len() - i,
    {
        from.push(renamed[i].from.clone());
        to.push(renamed[i].to.clone());
        i += 1;
    }
    proof {
        let views = rename_views(renamed@);
        assert(texts(from@) =~= views.map_values(|r: (Seq<char>, Seq<char>)| r.0));
        assert(texts(to@) =~= views.map_values(|r: (Seq<char>, Seq<char>)| r.1));
        let a = |c: ChangeView| !texts(to@).contains(c.path);
        let b = |c: ChangeView|
            !views.map_values(|r: (Seq<char>, Seq<char>)| r.1).contains(c.path);
        assert(a =~= b);
        let x = |c: ChangeView| !texts(from@).contains(c.path);
        let y = |c: ChangeView|
            !views.map_values(|r: (Seq<char>, Seq<char>)| r.0).contains(c.path);
        assert(x =~= y);
    }
    let rest_added = without_paths(added, &to);
    let rest_deleted = without_paths(deleted, &from);
    (renamed, rest_added, rest_deleted)
}

/// A change as data: the path and the size, and for a modified file what it
/// was before and how the change was told.
pub open spec fn change_tree(change: ChangeView) -> JsonTree {
    let plain = Map::<Seq<char>, JsonTree>::empty().insert(
        "path"@,
        JsonTree::Text(change.path),
    ).insert("size"@, JsonTree::unsigned(change.size));
    match change.previous_size {
        Some(previous) => JsonTree::Object(
            plain.insert("previous_size"@, JsonTree::unsigned(previous)).insert(
                "evidence"@,
                JsonTree::Text(change.evidence.name()),
            ),
        ),
        None => JsonTree::Object(plain),
    }
}

/// The first `limit` items of a list.
pub open spec fn first<T>(items: Seq<T>, limit: nat) -> Seq<T> {
    if items.len() <= limit {
        items
    } else {
        items.take(limit as int)
    }
}

/// The first changes of a list as data.
pub open spec fn changes_tree(changes: Seq<ChangeView>, limit: nat) -> JsonTree {
    JsonTree::List(first(changes, limit).map_values(|c: ChangeView| change_tree(c)))
}

impl Change {
    /// The change as data.
    pub fn to_json(&self) -> (r: Json)
        ensures
            r@ == change_tree(self@),
    {
        let plain = Json::object().put("path", Json::text(self.path.as_str())).put(
            "size",
            Json::unsigned(self.size),
        );
        match self.previous_size {
            Some(previous) => plain.put("previous_size", Json::unsigned(previous)).put(
                "evidence",
                Json::text(self.evidence.as_str()),
            ),
            None => plain,
        }
    }
}

/// The first `limit` changes of a list as data.
pub fn changes_json(changes: &Vec<Change>, limit: usize) -> (r: Json)
    ensures
        r@ == changes_tree(change_views(changes@), limit as nat),
{
    let total: usize = if changes.len() <= limit {
        changes.len()
    } else {
        limit
    };
    let mut out: Vec<Json> = Vec::new();
    let mut i: usize = 0;
    let ghost f = |c: ChangeView| change_tree(c);
    let ghost all = change_views(changes@);
    assert(trees(out@) =~= all.take(0).map_values(f));
    while i < total
        invariant
            i <= total <= changes@.len(),
            all == change_views(changes@),
            f == (|c: ChangeView| change_tree(c)),
            trees(out@) == all.take(i as int).map_values(f),
        decreases total - i,
    {
        let item = changes[i].to_json();
        proof {
            lemma_trees_push(out@, item);
            assert(all.take(i + 1).map_values(f) =~= all.take(i as int).map_values(f).push(item@));
        }
        out.push(item);
        i += 1;
    }
    assert(all.take(total as int) =~= first(all, limit as nat));
    Json::List(out)
}

/// The directory of a path; `.` for the root.
pub open spec fn directory_of(path: Seq<char>) -> Seq<char> {
    match before_last(path, '/') {
        Some(parent) => parent,
        None => "."@,
    }
}

/// How many of the changes lie in each directory.
pub open spec fn directory_counts(changes: Seq<ChangeView>) -> Map<Seq<char>, u64>
    decreases changes.len(),
{
    if changes.len() == 0 {
        Map::empty()
    } else {
        let front = directory_counts(changes.drop_last());
        let directory = directory_of(changes.last().path);
        let seen: int = if front.contains_key(directory) {
            front[directory] as int
        } else {
            0
        };
        front.insert(directory, (seen + 1) as u64)
    }
}

/// A directory and its number of changes as data.
pub open spec fn directory_tree(entry: (Seq<char>, u64)) -> JsonTree {
    JsonTree::Object(
        Map::<Seq<char>, JsonTree>::empty().insert("path"@, JsonTree::Text(entry.0)).insert(
            "changes"@,
            JsonTree::unsigned(entry.1),
        ),
    )
}

/// The number of directories that are reported.
pub const TOP_DIRECTORIES: usize = 10;

/// Where changes cluster: the directories with the most of them.
pub open spec fn directories_tree(changes: Seq<ChangeView>) -> JsonTree {
    JsonTree::List(
        first(ranking(directory_counts(changes)), TOP_DIRECTORIES as nat).map_values(
            |e: (Seq<char>, u64)| directory_tree(e),
        ),
    )
}

/// Every count of directories is at most the number of changes.
proof fn lemma_directory_counts(changes: Seq<ChangeView>)
    requires
        changes.len() <= u64::MAX,
    ensures
        forall|d: Seq<char>| #[trigger]
            directory_counts(changes).contains_key(d) ==> directory_counts(changes)[d]
                <= changes.len(),
    decreases changes.len(),
{
    if changes.len() > 0 {
        let front = changes.drop_last();
        lemma_directory_counts(front);
        assert forall|d: Seq<char>| #[trigger]
            directory_counts(changes).contains_key(d) implies directory_counts(changes)[d]
            <= changes.len() by {
            assert(front.len() + 1 == changes.len());
            let last = directory_of(changes.last().path);
            assert(directory_counts(front).contains_key(last) ==> directory_counts(front)[last]
                <= front.len());
            if d != last {
                assert(directory_counts(front).contains_key(d));
            }
        }
    }
}

fn count_directories(
    changes: &Vec<Change>,
    counts: PathMap<u64>,
    Ghost(earlier): Ghost<Seq<ChangeView>>,
) -> (r: PathMap<u64>)
    requires
        counts.wf(),
        counts@ == directory_counts(earlier),
        earlier.len() + changes@.len() <= u64::MAX,
    ensures
        r.wf(),
        r@ == directory_counts(earlier + change_views(changes@)),
{
    let mut counts = counts;
    let ghost all = change_views(changes@);
    let mut i: usize = 0;
    assert(earlier + all.take(0) =~= earlier);
    while i < changes.len()
        invariant
            i <= changes@.len(),
            counts.wf(),
            all == change_views(changes@),
            earlier.len() + changes@.len() <= u64::MAX,
            counts@ == directory_counts(earlier + all.take(i as int)),
        decreases changes@.len() - i,
    {
        let ghost done = earlier + all.take(i as int);
        proof {
            lemma_directory_counts(done);
            assert((earlier + all.take(i + 1)).drop_last() =~= done);
            assert((earlier + all.take(i + 1)).last() == changes@[i as int]@);
        }
        let directory = match split_before_last(changes[i].path.as_str(), '/') {
            Some(parent) => parent,
            None => ".".to_string(),
        };
        let seen: u64 = match counts.get(directory.as_str()) {
            Some(n) => *n,
            None => 0,
        };
        counts.insert(directory, seen + 1);
        i += 1;
    }
    assert(all.take(all.len() as int) =~= all);
    counts
}

/// Aggregates a large diff by directory, so that a truncated list still says
/// where the change is concentrated.
pub fn by_directory(added: &Vec<Change>, modified: &Vec<Change>, deleted: &Vec<Change>) -> (r: Json)
    requires
        added@.len() + modified@.len() + deleted@.len() <= u64::MAX,
    ensures
        r@ == directories_tree(
            change_views(added@) + change_views(modified@) + change_views(deleted@),
        ),
{
    let ghost none = Seq::<ChangeView>::empty();
    let a = count_directories(added, PathMap::new(), Ghost(none));
    assert(none + change_views(added@) =~= change_views(added@));
    let b = count_directories(modified, a, Ghost(change_views(added@)));
    let c = count_directories(
        deleted,
        b,
        Ghost(change_views(added@) + change_views(modified@)),
    );
    let ranked = rank(&c);
    let total: usize = if ranked.len() <= TOP_DIRECTORIES {
        ranked.len()
    } else {
        TOP_DIRECTORIES
    };
    let mut out: Vec<Json> = Vec::new();
    let mut i: usize = 0;
    let ghost all = counted_views(ranked@);
    let ghost f = |e: (Seq<char>, u64)| directory_tree(e);
    assert(trees(out@) =~= all.take(0).map_values(f));
    while i < total
        invariant
            i <= total <= ranked@.len(),
            all == counted_views(ranked@),
            f == (|e: (Seq<char>, u64)| directory_tree(e)),
            trees(out@) == all.take(i as int).map_values(f),
        decreases total - i,
    {
        let item = Json::object().put("path", Json::text(ranked[i].0.as_str())).put(
            "changes",
            Json::unsigned(ranked[i].1),
        );
        proof {
            lemma_trees_push(out@, item);
            assert(all.take(i + 1).map_values(f) =~= all.take(i as int).map_values(f).push(item@));
        }
        out.push(item);
        i += 1;
    }
    assert(all.take(total as int) =~= first(all, TOP_DIRECTORIES as nat));
    Json::List(out)
}

} // verus!
