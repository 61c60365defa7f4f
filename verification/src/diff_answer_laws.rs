//! What the answer of a diff shows of what the diff found.
use crate::json::JsonTree;
use crate::ranking::law_counts_are_ranked;
use crate::snapshot::{age_text, SnapshotView};
use crate::snapshot_diff::{
    directory_counts, directory_of, directory_tree, ChangeView, Evidence, Verification, Verify,
};
use crate::snapshot_tools::{
    change_lines, diff_options_result, diff_text, diff_tree, rename_lines, section_text,
    summary_text, DiffLists, DiffOptionsView,
};
use crate::text::{decimal, occurs};
use crate::text_laws::{lemma_occurs, lemma_occurs_in_part};
use vstd::prelude::*;

verus! {

proof fn lemma_answer_keys()
    ensures
        "base"@.len() == 4,
        "target"@.len() == 6,
        "counts"@.len() == 6,
        "added"@.len() == 5,
        "modified"@.len() == 8,
        "deleted"@.len() == 7,
        "renamed"@.len() == 7,
        "truncated"@.len() == 9,
        "verification"@.len() == 12,
        "elapsed_ms"@.len() == 10,
        "by_directory"@.len() == 12,
        "id"@.len() == 2,
        "files"@.len() == 5,
        "label"@.len() == 5,
        "created_at"@.len() == 10,
        "age"@.len() == 3,
        "content_hashes"@.len() == 14,
        "root"@.len() == 4,
        "path"@.len() == 4,
        "size"@.len() == 4,
        "previous_size"@.len() == 13,
        "evidence"@.len() == 8,
        "from"@.len() == 4,
        "to"@.len() == 2,
        "changes"@.len() == 7,
        "mode"@.len() == 4,
        "available"@.len() == 9,
        "hashed"@.len() == 6,
        "cleared"@.len() == 7,
        "compared"@.len() == 8,
        "content_only"@.len() == 12,
        "note"@.len() == 4,
        "verify"@.len() == 6,
        "detect_renames"@.len() == 14,
        "max_entries"@.len() == 11,
        "none"@.len() == 4,
        "suspect"@.len() == 7,
        "all"@.len() == 3,
        "live"@.len() == 4,
        "base"@[0] != "root"@[0],
        "base"@[0] != "path"@[0],
        "base"@[0] != "size"@[0],
        "base"@[0] != "from"@[0],
        "base"@[0] != "mode"@[0],
        "base"@[0] != "note"@[0],
        "base"@[0] != "none"@[0],
        "base"@[0] != "live"@[0],
        "target"@[0] != "counts"@[0],
        "target"@[0] != "hashed"@[0],
        "target"@[0] != "verify"@[0],
        "counts"@[0] != "hashed"@[0],
        "counts"@[0] != "verify"@[0],
        "added"@[0] != "files"@[0],
        "added"@[0] != "label"@[0],
        "modified"@[0] != "evidence"@[0],
        "modified"@[0] != "compared"@[0],
        "deleted"@[0] != "renamed"@[0],
        "deleted"@[0] != "changes"@[0],
        "deleted"@[0] != "cleared"@[0],
        "deleted"@[0] != "suspect"@[0],
        "renamed"@[0] != "changes"@[0],
        "renamed"@[0] != "cleared"@[0],
        "renamed"@[0] != "suspect"@[0],
        "truncated"@[0] != "available"@[0],
        "verification"@[0] != "by_directory"@[0],
        "verification"@[0] != "content_only"@[0],
        "elapsed_ms"@[0] != "created_at"@[0],
        "by_directory"@[0] != "content_only"@[0],
        "id"@[0] != "to"@[0],
        "files"@[0] != "label"@[0],
        "age"@[1] != "all"@[1],
        "content_hashes"@[0] != "detect_renames"@[0],
        "root"@[0] != "path"@[0],
        "root"@[0] != "size"@[0],
        "root"@[0] != "from"@[0],
        "root"@[0] != "mode"@[0],
        "root"@[0] != "note"@[0],
        "root"@[0] != "none"@[0],
        "root"@[0] != "live"@[0],
        "path"@[0] != "size"@[0],
        "path"@[0] != "from"@[0],
        "path"@[0] != "mode"@[0],
        "path"@[0] != "note"@[0],
        "path"@[0] != "none"@[0],
        "path"@[0] != "live"@[0],
        "size"@[0] != "from"@[0],
        "size"@[0] != "mode"@[0],
        "size"@[0] != "note"@[0],
        "size"@[0] != "none"@[0],
        "size"@[0] != "live"@[0],
        "evidence"@[0] != "compared"@[0],
        "from"@[0] != "mode"@[0],
        "from"@[0] != "note"@[0],
        "from"@[0] != "none"@[0],
        "from"@[0] != "live"@[0],
        "changes"@[1] != "cleared"@[1],
        "changes"@[0] != "suspect"@[0],
        "mode"@[0] != "note"@[0],
        "mode"@[0] != "none"@[0],
        "mode"@[0] != "live"@[0],
        "hashed"@[0] != "verify"@[0],
        "cleared"@[0] != "suspect"@[0],
        "note"@[2] != "none"@[2],
        "note"@[0] != "live"@[0],
        "none"@[0] != "live"@[0],
{
    reveal_strlit("base");
    reveal_strlit("target");
    reveal_strlit("counts");
    reveal_strlit("added");
    reveal_strlit("modified");
    reveal_strlit("deleted");
    reveal_strlit("renamed");
    reveal_strlit("truncated");
    reveal_strlit("verification");
    reveal_strlit("elapsed_ms");
    reveal_strlit("by_directory");
    reveal_strlit("id");
    reveal_strlit("files");
    reveal_strlit("label");
    reveal_strlit("created_at");
    reveal_strlit("age");
    reveal_strlit("content_hashes");
    reveal_strlit("root");
    reveal_strlit("path");
    reveal_strlit("size");
    reveal_strlit("previous_size");
    reveal_strlit("evidence");
    reveal_strlit("from");
    reveal_strlit("to");
    reveal_strlit("changes");
    reveal_strlit("mode");
    reveal_strlit("available");
    reveal_strlit("hashed");
    reveal_strlit("cleared");
    reveal_strlit("compared");
    reveal_strlit("content_only");
    reveal_strlit("note");
    reveal_strlit("verify");
    reveal_strlit("detect_renames");
    reveal_strlit("max_entries");
    reveal_strlit("none");
    reveal_strlit("suspect");
    reveal_strlit("all");
    reveal_strlit("live");
}

/// Whether an item of an answer shows a change: its path and size, and, where
/// the file was there before, what it was and how the change was established.
pub open spec fn shows_change(item: JsonTree, c: ChangeView) -> bool {
    &&& item.field_text("path"@) == Some(c.path)
    &&& item.field_unsigned("size"@) == Some(c.size)
    &&& item.field_unsigned("previous_size"@) == c.previous_size
    &&& c.previous_size is Some ==> item.field_text("evidence"@) == Some(
        match c.evidence {
            Evidence::Size => "size"@,
            Evidence::Digest => "metadata-digest"@,
            Evidence::Mtime => "mtime"@,
            Evidence::Content => "content-hash"@,
        },
    )
}

/// Whether a list of an answer shows the first of a list of changes, up to a
/// limit.
pub open spec fn shows_changes(items: Option<Seq<JsonTree>>, changes: Seq<ChangeView>, limit: nat) -> bool {
    &&& items is Some
    &&& items->0.len() == (if changes.len() <= limit {
        changes.len()
    } else {
        limit
    })
    &&& forall|i: int| 0 <= i < items->0.len() ==> shows_change(#[trigger] items->0[i], changes[i])
}

proof fn lemma_shows_changes(changes: Seq<ChangeView>, limit: nat)
    ensures
        crate::snapshot_diff::changes_tree(changes, limit) matches JsonTree::List(items)
            && shows_changes(Some(items), changes, limit),
{
    lemma_answer_keys();
}

/// The answer of a diff lists the first of the added, modified and deleted files
/// and all the renames, counts all of them, and says whether a list was cut.
pub proof fn law_answers_list_the_changes(
    base: SnapshotView,
    target: SnapshotView,
    options: DiffOptionsView,
    d: DiffLists,
    now: u64,
    elapsed_ms: u64,
)
    ensures
        ({
            let tree = diff_tree(base, target, options, d, now, elapsed_ms);
            let limit = options.max_entries;
            let renamed = tree.field_list("renamed"@);
            let counts = tree.field("counts"@)->0;
            &&& shows_changes(tree.field_list("added"@), d.added, limit)
            &&& shows_changes(tree.field_list("modified"@), d.modified, limit)
            &&& shows_changes(tree.field_list("deleted"@), d.deleted, limit)
            &&& renamed is Some && renamed->0.len() == d.renamed.len() && forall|i: int|
                0 <= i < d.renamed.len() ==> (#[trigger] renamed->0[i]).field_text("from"@) == Some(
                    d.renamed[i].0,
                ) && renamed->0[i].field_text("to"@) == Some(d.renamed[i].1)
            &&& counts.field_unsigned("added"@) == Some(d.added.len() as u64)
            &&& counts.field_unsigned("modified"@) == Some(d.modified.len() as u64)
            &&& counts.field_unsigned("deleted"@) == Some(d.deleted.len() as u64)
            &&& counts.field_unsigned("renamed"@) == Some(d.renamed.len() as u64)
            &&& tree.field_bool("truncated"@) == Some(
                d.added.len() > limit || d.modified.len() > limit || d.deleted.len() > limit,
            )
            &&& tree.field_unsigned("elapsed_ms"@) == Some(elapsed_ms)
            &&& tree.field("by_directory"@) is Some <==> (d.added.len() > limit || d.modified.len()
                > limit || d.deleted.len() > limit)
        }),
{
    lemma_answer_keys();
    lemma_shows_changes(d.added, options.max_entries);
    lemma_shows_changes(d.modified, options.max_entries);
    lemma_shows_changes(d.deleted, options.max_entries);
}

/// The answer of a diff names its two sides: the base as it was recorded, and as
/// the target the tree, or a snapshot as it was recorded.
pub proof fn law_answers_name_both_sides(
    base: SnapshotView,
    target: SnapshotView,
    options: DiffOptionsView,
    d: DiffLists,
    now: u64,
    elapsed_ms: u64,
)
    ensures
        ({
            let tree = diff_tree(base, target, options, d, now, elapsed_ms);
            let b = tree.field("base"@)->0;
            let t = tree.field("target"@)->0;
            &&& shows_snapshot(b, base)
            &&& t.field_unsigned("files"@) == Some(target.files.dom().len() as u64)
            &&& options.target is None ==> t.field_text("id"@) == Some("live"@)
            &&& options.target is Some ==> shows_snapshot(t, target)
        }),
{
    lemma_answer_keys();
}

/// Whether data names a snapshot as it was recorded.
pub open spec fn shows_snapshot(t: JsonTree, s: SnapshotView) -> bool {
    &&& t.field_text("id"@) == Some(s.id)
    &&& t.field_text("label"@) == Some(s.label)
    &&& t.field_unsigned("created_at"@) == Some(s.created_at)
    &&& t.field_unsigned("files"@) == Some(s.files.dom().len() as u64)
    &&& t.field_bool("content_hashes"@) == Some(s.has_hashes)
    &&& t.field_text("root"@) == Some(s.root)
}

/// A snapshot is shown as it was recorded.
pub proof fn law_snapshots_are_shown_as_recorded(s: SnapshotView, now: u64)
    ensures
        shows_snapshot(crate::snapshot::snapshot_tree(s, now), s),
        crate::snapshot::snapshot_tree(s, now).field_text("age"@) == Some(
            age_text(
                if now >= s.created_at {
                    (now - s.created_at) as u64
                } else {
                    0
                },
            ),
        ),
{
    lemma_answer_keys();
}

/// What an answer says of verification: how it was asked for, whether it was
/// possible, and what it counted.
pub proof fn law_answers_show_the_verification(
    base: SnapshotView,
    target: SnapshotView,
    options: DiffOptionsView,
    d: DiffLists,
    now: u64,
    elapsed_ms: u64,
)
    ensures
        ({
            let v = diff_tree(base, target, options, d, now, elapsed_ms).field("verification"@)->0;
            let mode = v.field_text("mode"@);
            let available = v.field_bool("available"@);
            let cleared = v.field_unsigned("cleared"@);
            match d.verification {
                Verification::Off => mode == Some("none"@) && available == Some(false),
                Verification::NoBaseHashes(asked) | Verification::NoTargetHashes(asked) =>
                    available == Some(false) && cleared is None && (asked == Verify::Suspect ==> mode
                    == Some("suspect"@)) && (asked == Verify::All ==> mode == Some("all"@)),
                Verification::Suspect { hashed, cleared: n } => mode == Some("suspect"@)
                    && available == Some(true) && cleared == Some(n) && v.field_unsigned("hashed"@)
                    == Some(hashed),
                Verification::All { compared, cleared: n, content_only } => mode == Some("all"@)
                    && available == Some(true) && cleared == Some(n) && v.field_unsigned(
                    "compared"@,
                ) == Some(compared) && v.field_unsigned("content_only"@) == Some(content_only),
            }
        }),
{
    lemma_answer_keys();
}

/// What is asked of a diff is what it does: the verification that is named, or
/// none; renames only on request; as many entries as asked for, between one and
/// five thousand, and two hundred where nothing is said; and the tree itself as
/// the target unless a snapshot is named.
pub proof fn law_diffs_do_what_is_asked(args: JsonTree)
    ensures
        ({
            let asked = args.field_text("verify"@);
            let most = args.field_unsigned("max_entries"@);
            let target = args.field_text("target"@);
            let known = asked is None || asked == Some("none"@) || asked == Some("suspect"@)
                || asked == Some("all"@);
            match diff_options_result(args) {
                Ok(o) => {
                    &&& known
                    &&& o.verify == Verify::Off <==> asked is None || asked == Some("none"@)
                    &&& o.verify == Verify::Suspect <==> asked == Some("suspect"@)
                    &&& o.verify == Verify::All <==> asked == Some("all"@)
                    &&& o.detect_renames <==> args.field_bool("detect_renames"@) == Some(true)
                    &&& most is None ==> o.max_entries == 200
                    &&& most matches Some(n) ==> 1 <= o.max_entries <= 5000 && (1 <= n <= 5000
                        ==> o.max_entries == n) && (n > 5000 ==> o.max_entries == 5000)
                    &&& o.target is None <==> target is None || target == Some("live"@)
                    &&& args.field_text("path"@) is None ==> o.prefix is None
                },
                Err(_) => !known || (target is Some && target != Some("live"@)),
            }
        }),
{
    lemma_answer_keys();
}

/// A path restricts a diff to what is below it: paths that start with it and a
/// slash, however many slashes surround it.
pub proof fn law_paths_restrict_a_diff_to_what_is_below(
    args: JsonTree,
    dir: Seq<char>,
    before: nat,
    after: nat,
)
    requires
        dir.len() > 0,
        dir[0] != '/',
        dir.last() != '/',
        !dir.contains('\\'),
        args.field_text("path"@) == Some(slashes(before) + dir + slashes(after)),
    ensures
        diff_options_result(args) matches Ok(o) ==> o.prefix == Some(dir.push('/')),
{
    let slash = |c: char| c == '/';
    lemma_slashes_before(dir + slashes(after), before);
    assert(slashes(before) + dir + slashes(after) =~= slashes(before) + (dir + slashes(after)));
    assert((dir + slashes(after))[0] == dir[0]);
    lemma_slashes_after(dir, after);
    let inner = crate::text::replaced(dir, '\\', '/');
    assert forall|i: int| 0 <= i < dir.len() implies dir[i] != '\\' by {
        assert(dir.contains(dir[i]));
    }
    assert(inner =~= dir);
    reveal_strlit("/");
    assert(dir + "/"@ =~= dir.push('/'));
    lemma_answer_keys();
}

/// So many slashes.
pub open spec fn slashes(n: nat) -> Seq<char> {
    Seq::new(n, |i: int| '/')
}

proof fn lemma_slashes_before(s: Seq<char>, n: nat)
    requires
        s.len() > 0,
        s[0] != '/',
    ensures
        crate::text::without_start(slashes(n) + s, |c: char| c == '/') == s,
    decreases n,
{
    if n == 0 {
        assert(slashes(0) + s =~= s);
    } else {
        lemma_slashes_before(s, (n - 1) as nat);
        assert((slashes(n) + s).skip(1) =~= slashes((n - 1) as nat) + s);
    }
}

proof fn lemma_slashes_after(s: Seq<char>, n: nat)
    requires
        s.len() > 0,
        s.last() != '/',
    ensures
        crate::text::without_end(s + slashes(n), |c: char| c == '/') == s,
    decreases n,
{
    if n == 0 {
        assert(s + slashes(0) =~= s);
    } else {
        lemma_slashes_after(s, (n - 1) as nat);
        assert((s + slashes(n)).drop_last() =~= s + slashes((n - 1) as nat));
        assert((s + slashes(n)).last() == '/');
    }
}

/// The number of changes in a directory.
pub open spec fn changes_in(changes: Seq<ChangeView>, directory: Seq<char>) -> nat {
    changes.filter(|c: ChangeView| is_in(c.path, directory)).len()
}

/// Whether a path is that of a file right in a directory; one without a slash is
/// in the directory `.`.
pub open spec fn is_in(path: Seq<char>, directory: Seq<char>) -> bool {
    if path.contains('/') {
        exists|at: int|
            0 <= at < path.len() && path[at] == '/' && path.take(at) == directory && (forall|k: int|
                at < k < path.len() ==> #[trigger] path[k] != '/')
    } else {
        directory == "."@
    }
}

proof fn lemma_is_in(path: Seq<char>, directory: Seq<char>)
    ensures
        is_in(path, directory) <==> directory_of(path) == directory,
{
    lemma_before_last(path);
    match crate::text::before_last(path, '/') {
        Some(parent) => {
            let n = parent.len() as int;
            assert(path[n] == '/');
            assert(path.contains('/'));
            assert(path.take(n) =~= parent);
            if is_in(path, directory) {
                let at = choose|at: int|
                    0 <= at < path.len() && path[at] == '/' && path.take(at) == directory && (
                    forall|k: int| at < k < path.len() ==> #[trigger] path[k] != '/');
                if at < n {
                    assert(path[n] != '/');
                }
                if n < at {
                    assert(path[at] != '/');
                }
            }
        },
        None => {
            if path.contains('/') {
                let k = choose|k: int| 0 <= k < path.len() && path[k] == '/';
                assert(path[k] != '/');
            }
        },
    }
}

proof fn lemma_before_last(path: Seq<char>)
    ensures
        match crate::text::before_last(path, '/') {
            Some(parent) => parent.len() < path.len() && path.take(parent.len() as int) == parent
                && path[parent.len() as int] == '/' && forall|k: int|
                parent.len() < k < path.len() ==> #[trigger] path[k] != '/',
            None => forall|k: int| 0 <= k < path.len() ==> #[trigger] path[k] != '/',
        },
    decreases path.len(),
{
    if path.len() > 0 {
        let front = path.drop_last();
        if path.last() == '/' {
            assert(path.take(front.len() as int) =~= front);
        } else {
            lemma_before_last(front);
            match crate::text::before_last(front, '/') {
                Some(parent) => {
                    assert(path.take(parent.len() as int) =~= front.take(parent.len() as int));
                    assert forall|k: int| parent.len() < k < path.len() implies #[trigger] path[k]
                        != '/' by {
                        if k < front.len() {
                            assert(front[k] == path[k]);
                        }
                    }
                },
                None => {
                    assert forall|k: int| 0 <= k < path.len() implies #[trigger] path[k]
                        != '/' by {
                        if k < front.len() {
                            assert(front[k] == path[k]);
                        }
                    }
                },
            }
        }
    }
}

proof fn lemma_directory_counts(changes: Seq<ChangeView>, directory: Seq<char>)
    requires
        changes.len() <= u64::MAX,
    ensures
        directory_counts(changes).dom().finite(),
        directory_counts(changes).dom().len() <= changes.len(),
        directory_counts(changes).contains_key(directory) <==> changes_in(changes, directory) > 0,
        directory_counts(changes).contains_key(directory) ==> directory_counts(changes)[directory]
            == changes_in(changes, directory),
        changes_in(changes, directory) <= changes.len(),
    decreases changes.len(),
{
    reveal(Seq::filter);
    if changes.len() > 0 {
        lemma_directory_counts(changes.drop_last(), directory);
        lemma_is_in(changes.last().path, directory);
    }
}

/// A diff that is cut shows where the changes are: the directories with the most
/// changes, ten at most, more before less, and each with the number of all the
/// changes right in it.
pub proof fn law_cut_diffs_show_where_changes_are(
    base: SnapshotView,
    target: SnapshotView,
    options: DiffOptionsView,
    d: DiffLists,
    now: u64,
    elapsed_ms: u64,
    i: int,
)
    requires
        d.added.len() + d.modified.len() + d.deleted.len() <= u64::MAX,
        d.added.len() + d.modified.len() + d.deleted.len() <= usize::MAX,
    ensures
        ({
            let tree = diff_tree(base, target, options, d, now, elapsed_ms);
            let all = d.added + d.modified + d.deleted;
            tree.field_list("by_directory"@) matches Some(items) ==> {
                &&& items.len() <= 10
                &&& 0 <= i < items.len() ==> (items[i].field_text("path"@) matches Some(p)
                    && items[i].field_unsigned("changes"@) == Some(changes_in(all, p) as u64)
                    && changes_in(all, p) > 0)
                &&& 0 <= i < items.len() - 1 ==> (items[i].field_unsigned("changes"@) matches Some(
                    a,
                ) && items[i + 1].field_unsigned("changes"@) matches Some(b) && a >= b)
            }
        }),
{
    lemma_answer_keys();
    let all = d.added + d.modified + d.deleted;
    let counts = directory_counts(all);
    lemma_directory_counts(all, "."@);
    law_counts_are_ranked(counts);
    let ranked = crate::ranking::ranking(counts);
    let tree = diff_tree(base, target, options, d, now, elapsed_ms);
    if let Some(items) = tree.field_list("by_directory"@) {
        if 0 <= i < items.len() {
            assert(ranked.contains(ranked[i]));
            lemma_directory_counts(all, ranked[i].0);
            assert(items[i] == directory_tree(ranked[i]));
        }
        if 0 <= i < items.len() - 1 {
            assert(items[i + 1] == directory_tree(ranked[i + 1]));
        }
    }
}

/// The line of a listed change.
pub open spec fn line_of(marker: char, path: Seq<char>) -> Seq<char> {
    seq![marker, ' '] + path + seq!['\n']
}

proof fn lemma_line_listed(marker: char, text: Seq<char>, changes: Seq<ChangeView>, i: int)
    requires
        0 <= i < changes.len(),
        text == seq![marker],
    ensures
        occurs(change_lines(text, changes), line_of(marker, changes[i].path)),
    decreases changes.len(),
{
    reveal_strlit(" ");
    reveal_strlit("\n");
    let front = changes.drop_last();
    let line = text + " "@ + changes.last().path + "\n"@;
    assert(line =~= line_of(marker, changes.last().path));
    if i == changes.len() - 1 {
        lemma_occurs(change_lines(text, front), line, Seq::empty());
        assert(change_lines(text, front) + line + Seq::<char>::empty() =~= change_lines(
            text,
            changes,
        ));
    } else {
        lemma_line_listed(marker, text, front, i);
        lemma_occurs_in_part(
            Seq::empty(),
            change_lines(text, front),
            line,
            line_of(marker, changes[i].path),
        );
        assert(Seq::<char>::empty() + change_lines(text, front) + line =~= change_lines(
            text,
            changes,
        ));
    }
}

proof fn lemma_section_lists(
    marker: char,
    text: Seq<char>,
    changes: Seq<ChangeView>,
    limit: nat,
    i: int,
)
    requires
        0 <= i < changes.len(),
        i < limit,
        text == seq![marker],
    ensures
        occurs(section_text(text, changes, limit), line_of(marker, changes[i].path)),
{
    let shown = crate::snapshot_diff::first(changes, limit);
    assert(shown[i] == changes[i]);
    lemma_line_listed(marker, text, shown, i);
    let rest = if changes.len() > limit {
        text + " … "@ + decimal((changes.len() - limit) as nat) + " more\n"@
    } else {
        Seq::empty()
    };
    lemma_occurs_in_part(
        Seq::empty(),
        change_lines(text, shown),
        rest,
        line_of(marker, changes[i].path),
    );
    assert(Seq::<char>::empty() + change_lines(text, shown) + rest =~= section_text(
        text,
        changes,
        limit,
    ));
}

/// The text of a diff has a line for each listed file: `+` marks an added one,
/// `~` a modified one and `-` a deleted one.
pub proof fn law_diff_texts_mark_every_listed_file(
    base: SnapshotView,
    now: u64,
    target_id: Seq<char>,
    d: DiffLists,
    limit: nat,
    i: int,
)
    requires
        0 <= i < limit,
    ensures
        ({
            let text = diff_text(base, now, target_id, d, limit);
            &&& i < d.added.len() ==> occurs(text, line_of('+', d.added[i].path))
            &&& i < d.modified.len() ==> occurs(text, line_of('~', d.modified[i].path))
            &&& i < d.deleted.len() ==> occurs(text, line_of('-', d.deleted[i].path))
        }),
{
    reveal_strlit("+");
    reveal_strlit("~");
    reveal_strlit("-");
    assert("+"@ =~= seq!['+']);
    assert("~"@ =~= seq!['~']);
    assert("-"@ =~= seq!['-']);
    let text = diff_text(base, now, target_id, d, limit);
    let head = base.id + " ("@ + age_text(
        crate::snapshot::seconds_between(base.created_at, now),
    ) + ") -> "@ + target_id + "\n"@;
    let added = section_text("+"@, d.added, limit);
    let modified = section_text("~"@, d.modified, limit);
    let deleted = section_text("-"@, d.deleted, limit);
    let moved = rename_lines(d.renamed);
    let summary = summary_text(d);
    let rest = crate::snapshot_tools::remarks_text(d, limit);
    if i < d.added.len() {
        let line = line_of('+', d.added[i].path);
        lemma_section_lists('+', "+"@, d.added, limit, i);
        lemma_occurs_in_part(head, added, modified + deleted + moved + summary + rest, line);
        assert(head + added + (modified + deleted + moved + summary + rest) =~= text);
    }
    if i < d.modified.len() {
        let line = line_of('~', d.modified[i].path);
        lemma_section_lists('~', "~"@, d.modified, limit, i);
        lemma_occurs_in_part(head + added, modified, deleted + moved + summary + rest, line);
        assert(head + added + modified + (deleted + moved + summary + rest) =~= text);
    }
    if i < d.deleted.len() {
        let line = line_of('-', d.deleted[i].path);
        lemma_section_lists('-', "-"@, d.deleted, limit, i);
        lemma_occurs_in_part(head + added + modified, deleted, moved + summary + rest, line);
        assert(head + added + modified + deleted + (moved + summary + rest) =~= text);
    }
}

proof fn lemma_summary(d: DiffLists)
    ensures
        occurs(summary_text(d), decimal(d.added.len()) + " added, "@),
        occurs(summary_text(d), decimal(d.modified.len()) + " modified, "@),
        occurs(summary_text(d), decimal(d.deleted.len()) + " deleted"@),
{
    let summary = summary_text(d);
    let a = decimal(d.added.len()) + " added, "@;
    let m = decimal(d.modified.len()) + " modified, "@;
    let e = decimal(d.deleted.len()) + " deleted"@;
    let n = "\n"@;
    let tail = (if d.renamed.len() > 0 {
        ", "@ + decimal(d.renamed.len()) + " renamed"@
    } else {
        Seq::empty()
    }) + ".\n"@;
    lemma_occurs(n, a, m + e + tail);
    assert(n + a + (m + e + tail) =~= summary);
    lemma_occurs(n + a, m, e + tail);
    assert(n + a + m + (e + tail) =~= summary);
    lemma_occurs(n + a + m, e, tail);
    assert(n + a + m + e + tail =~= summary);
}

proof fn lemma_summary_of_renames(d: DiffLists)
    requires
        d.renamed.len() > 0,
    ensures
        occurs(summary_text(d), decimal(d.renamed.len()) + " renamed"@),
{
    let front = "\n"@ + decimal(d.added.len()) + " added, "@ + decimal(d.modified.len())
        + " modified, "@ + decimal(d.deleted.len()) + " deleted"@;
    let r = decimal(d.renamed.len()) + " renamed"@;
    lemma_occurs(front + ", "@, r, ".\n"@);
    assert(front + ", "@ + r + ".\n"@ =~= summary_text(d));
}

/// The text of a diff gives the numbers of all the changes, however many are
/// listed, and starts with the base that it is against.
pub proof fn law_diff_texts_count_the_changes(
    base: SnapshotView,
    now: u64,
    target_id: Seq<char>,
    d: DiffLists,
    limit: nat,
)
    ensures
        ({
            let text = diff_text(base, now, target_id, d, limit);
            &&& base.id.len() <= text.len() && text.take(base.id.len() as int) == base.id
            &&& occurs(text, decimal(d.added.len()) + " added, "@)
            &&& occurs(text, decimal(d.modified.len()) + " modified, "@)
            &&& occurs(text, decimal(d.deleted.len()) + " deleted"@)
            &&& d.renamed.len() > 0 ==> occurs(text, decimal(d.renamed.len()) + " renamed"@)
        }),
{
    let text = diff_text(base, now, target_id, d, limit);
    let head = base.id + " ("@ + age_text(
        crate::snapshot::seconds_between(base.created_at, now),
    ) + ") -> "@ + target_id + "\n"@;
    let added = section_text("+"@, d.added, limit);
    let modified = section_text("~"@, d.modified, limit);
    let deleted = section_text("-"@, d.deleted, limit);
    let moved = rename_lines(d.renamed);
    let summary = summary_text(d);
    let rest = crate::snapshot_tools::remarks_text(d, limit);
    let front = head + added + modified + deleted + moved;
    assert(front + summary + rest =~= text);
    assert(text.take(base.id.len() as int) =~= base.id);
    lemma_summary(d);
    lemma_occurs_in_part(front, summary, rest, decimal(d.added.len()) + " added, "@);
    lemma_occurs_in_part(front, summary, rest, decimal(d.modified.len()) + " modified, "@);
    lemma_occurs_in_part(front, summary, rest, decimal(d.deleted.len()) + " deleted"@);
    if d.renamed.len() > 0 {
        lemma_summary_of_renames(d);
        lemma_occurs_in_part(front, summary, rest, decimal(d.renamed.len()) + " renamed"@);
    }
}

proof fn lemma_rename_line(renamed: Seq<(Seq<char>, Seq<char>)>, i: int)
    requires
        0 <= i < renamed.len(),
    ensures
        occurs(rename_lines(renamed), "> "@ + renamed[i].0 + " -> "@ + renamed[i].1 + "\n"@),
    decreases renamed.len(),
{
    let front = renamed.drop_last();
    let line = "> "@ + renamed.last().0 + " -> "@ + renamed.last().1 + "\n"@;
    let none = Seq::<char>::empty();
    if i == renamed.len() - 1 {
        lemma_occurs(rename_lines(front), line, none);
        assert(rename_lines(front) + line + none =~= rename_lines(renamed));
    } else {
        lemma_rename_line(front, i);
        let part = "> "@ + renamed[i].0 + " -> "@ + renamed[i].1 + "\n"@;
        lemma_occurs_in_part(none, rename_lines(front), line, part);
        assert(none + rename_lines(front) + line =~= rename_lines(renamed));
    }
}

/// The text of a diff has a line for every rename, from where to where.
pub proof fn law_diff_texts_name_every_rename(
    base: SnapshotView,
    now: u64,
    target_id: Seq<char>,
    d: DiffLists,
    limit: nat,
    i: int,
)
    requires
        0 <= i < d.renamed.len(),
    ensures
        occurs(
            diff_text(base, now, target_id, d, limit),
            "> "@ + d.renamed[i].0 + " -> "@ + d.renamed[i].1 + "\n"@,
        ),
{
    let text = diff_text(base, now, target_id, d, limit);
    let head = base.id + " ("@ + age_text(
        crate::snapshot::seconds_between(base.created_at, now),
    ) + ") -> "@ + target_id + "\n"@;
    let front = head + section_text("+"@, d.added, limit) + section_text("~"@, d.modified, limit)
        + section_text("-"@, d.deleted, limit);
    let moved = rename_lines(d.renamed);
    let rest = summary_text(d) + crate::snapshot_tools::remarks_text(d, limit);
    lemma_rename_line(d.renamed, i);
    lemma_occurs_in_part(
        front,
        moved,
        rest,
        "> "@ + d.renamed[i].0 + " -> "@ + d.renamed[i].1 + "\n"@,
    );
    assert(front + moved + rest =~= text);
}

/// A list that is cut ends in how many files are left out.
pub proof fn law_cut_lists_say_how_many_are_left_out(
    marker: Seq<char>,
    changes: Seq<ChangeView>,
    limit: nat,
)
    ensures
        changes.len() > limit ==> crate::text::closes(
            section_text(marker, changes, limit),
            marker + " … "@ + decimal((changes.len() - limit) as nat) + " more\n"@,
        ),
        changes.len() <= limit ==> section_text(marker, changes, limit) == change_lines(
            marker,
            changes,
        ),
{
    let shown = crate::snapshot_diff::first(changes, limit);
    let lines = change_lines(marker, shown);
    if changes.len() > limit {
        let more = marker + " … "@ + decimal((changes.len() - limit) as nat) + " more\n"@;
        assert((lines + more).skip(lines.len() as int) =~= more);
    } else {
        assert(lines + Seq::<char>::empty() =~= lines);
    }
}

/// What verification came to is said in words, with its numbers.
pub proof fn law_verification_is_told_in_words(
    hashed: u64,
    cleared: u64,
    compared: u64,
    only: u64,
    verify: Verify,
)
    ensures
        crate::snapshot_tools::verification_note(Verification::Off) is None,
        crate::snapshot_tools::verification_note(Verification::Suspect { hashed, cleared }) == Some(
            decimal(cleared as nat) + " of "@ + decimal(hashed as nat)
                + " metadata-flagged files had identical content and were dropped"@,
        ),
        crate::snapshot_tools::verification_note(
            Verification::All { compared, cleared, content_only: only },
        ) == Some(
            "compared "@ + decimal(compared as nat) + " files by content: "@ + decimal(
                cleared as nat,
            ) + " were flagged by metadata but identical, "@ + decimal(only as nat)
                + " changed with no metadata trace"@,
        ),
        crate::snapshot_tools::verification_note(Verification::NoBaseHashes(verify)) == Some(
            "base snapshot holds no content hashes; create it with hash=true to verify"@,
        ),
        crate::snapshot_tools::verification_note(Verification::NoTargetHashes(verify)) == Some(
            "target snapshot holds no content hashes"@,
        ),
{
}

/// The text of a diff ends in whether a list was cut, and in what verification
/// came to.
pub proof fn law_diff_texts_end_with_remarks(d: DiffLists, limit: nat)
    ensures
        ({
            let cut = d.added.len() > limit || d.modified.len() > limit || d.deleted.len() > limit;
            crate::snapshot_tools::remarks_text(d, limit) == (if cut {
                "Listing truncated; see by_directory for where changes cluster.\n"@
            } else {
                Seq::empty()
            }) + (match crate::snapshot_tools::verification_note(d.verification) {
                Some(note) => "Verification: "@ + note + "\n"@,
                None => Seq::empty(),
            })
        }),
{
}

/// The text of a diff starts with the base, its age, and what it is compared
/// with.
pub proof fn law_diff_texts_name_both_sides(
    base: SnapshotView,
    now: u64,
    target_id: Seq<char>,
    d: DiffLists,
    limit: nat,
)
    requires
        now >= base.created_at,
    ensures
        crate::text::opens(
            diff_text(base, now, target_id, d, limit),
            base.id + " ("@ + age_text((now - base.created_at) as u64) + ") -> "@ + target_id
                + "\n"@,
        ),
{
    let head = base.id + " ("@ + age_text((now - base.created_at) as u64) + ") -> "@ + target_id
        + "\n"@;
    let a = section_text("+"@, d.added, limit);
    let b = section_text("~"@, d.modified, limit);
    let c = section_text("-"@, d.deleted, limit);
    let m = rename_lines(d.renamed);
    let s = summary_text(d);
    let r = crate::snapshot_tools::remarks_text(d, limit);
    lemma_opens_all(head, a, b, c, m, s, r);
}

proof fn lemma_opens_all(
    head: Seq<char>,
    a: Seq<char>,
    b: Seq<char>,
    c: Seq<char>,
    m: Seq<char>,
    s: Seq<char>,
    r: Seq<char>,
)
    ensures
        crate::text::opens(head + a + b + c + m + s + r, head),
{
    let all = head + a + b + c + m + s + r;
    assert(all.take(head.len() as int) =~= head);
}

/// A cut diff leaves a directory with changes out only where ten others have as
/// many at least.
pub proof fn law_cut_diffs_leave_out_only_lesser_directories(
    base: SnapshotView,
    target: SnapshotView,
    options: DiffOptionsView,
    d: DiffLists,
    now: u64,
    elapsed_ms: u64,
    directory: Seq<char>,
)
    requires
        d.added.len() + d.modified.len() + d.deleted.len() <= u64::MAX,
        d.added.len() + d.modified.len() + d.deleted.len() <= usize::MAX,
        changes_in(d.added + d.modified + d.deleted, directory) > 0,
    ensures
        ({
            let tree = diff_tree(base, target, options, d, now, elapsed_ms);
            let n = changes_in(d.added + d.modified + d.deleted, directory);
            tree.field_list("by_directory"@) matches Some(items) ==> (exists|i: int|
                0 <= i < items.len() && (#[trigger] items[i]).field_text("path"@) == Some(
                    directory,
                )) || (items.len() == 10 && forall|i: int|
                0 <= i < items.len() ==> ((#[trigger] items[i]).field_unsigned(
                    "changes"@,
                ) matches Some(m) && m >= n))
        }),
{
    lemma_answer_keys();
    let all = d.added + d.modified + d.deleted;
    let counts = directory_counts(all);
    lemma_directory_counts(all, directory);
    law_counts_are_ranked(counts);
    let ranked = crate::ranking::ranking(counts);
    let tree = diff_tree(base, target, options, d, now, elapsed_ms);
    if let Some(items) = tree.field_list("by_directory"@) {
        let one = (directory, counts[directory]);
        assert(ranked.contains(one));
        let k = choose|k: int| 0 <= k < ranked.len() && ranked[k] == one;
        assert forall|i: int| 0 <= i < items.len() implies (#[trigger] items[i]) == directory_tree(
            ranked[i],
        ) by {}
        if k < items.len() {
            assert(items[k].field_text("path"@) == Some(directory));
        } else {
            assert forall|i: int| 0 <= i < items.len() implies ((
            #[trigger] items[i]).field_unsigned("changes"@) matches Some(m) && m >= changes_in(
                all,
                directory,
            )) by {
                assert(ranked[i].1 >= ranked[k].1);
            }
        }
    }
}

/// The answer to a diff counts and lists the files that differ, as data and as
/// text: those that are added, modified, deleted and renamed, and no others.
pub proof fn law_diffs_answer_what_differs(
    base: SnapshotView,
    base_paths: Seq<Seq<char>>,
    target: SnapshotView,
    paths: Seq<Seq<char>>,
    options: DiffOptionsView,
    read: Map<Seq<char>, Seq<u8>>,
    now: u64,
    elapsed_ms: u64,
)
    ensures
        ({
            let d = crate::snapshot_tools::differences(
                base,
                base_paths,
                target,
                paths,
                options,
                read,
            );
            let answer = crate::snapshot_tools::diff_answer(
                base,
                base_paths,
                target,
                paths,
                options,
                read,
                now,
                elapsed_ms,
            );
            let tree = answer.structured;
            let counts = tree.field("counts"@)->0;
            &&& shows_changes(tree.field_list("added"@), d.added, options.max_entries)
            &&& shows_changes(tree.field_list("modified"@), d.modified, options.max_entries)
            &&& shows_changes(tree.field_list("deleted"@), d.deleted, options.max_entries)
            &&& counts.field_unsigned("added"@) == Some(d.added.len() as u64)
            &&& counts.field_unsigned("modified"@) == Some(d.modified.len() as u64)
            &&& counts.field_unsigned("deleted"@) == Some(d.deleted.len() as u64)
            &&& counts.field_unsigned("renamed"@) == Some(d.renamed.len() as u64)
            &&& answer.text == diff_text(base, now, options.target_id, d, options.max_entries)
        }),
{
    let d = crate::snapshot_tools::differences(base, base_paths, target, paths, options, read);
    law_answers_list_the_changes(base, target, options, d, now, elapsed_ms);
}

} // verus!
