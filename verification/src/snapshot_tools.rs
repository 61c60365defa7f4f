//! The tools that create, list, delete and compare snapshots.
use crate::json::{lemma_trees_push, trees, Json, JsonTree};
use crate::lists::lemma_filter_map_len;
use crate::path_map::PathMap;
use crate::snapshot::{
    age, age_text, label_result, sanitize_id, seconds_between, snapshot_tree, Snapshot,
    SnapshotView,
};
use crate::snapshot_diff::{
    by_directory, change_report, change_views, changed_by_metadata, changes_json, changes_tree,
    content_change, detect_renamed, directories_tree, first, hash_at, hash_views, is_cleared,
    list_only_in, lone_report, metadata_change, target_hashes, not_renamed_from, not_renamed_to, only_in,
    option_text, rename_views, renames, verified, verify_changes, Change, ChangeView, Rename,
    Verification, Verify,
};
use crate::text::{
    add_number, add_text, decimal, number, owned, replace_char, replaced, same, trim_end_char,
    trim_start_char, without_end, without_start,
};
use crate::tool::{ToolOutput, ToolOutputView};
use vstd::prelude::*;

verus! {

/// The number of paths a diff lists when the request does not say.
pub const DEFAULT_MAX_ENTRIES: usize = 200;

/// The largest number of paths a diff lists.
pub const MAX_MAX_ENTRIES: usize = 5000;

/// What a diff is asked for, besides its base.
pub struct DiffOptions {
    pub verify: Verify,
    pub detect_renames: bool,
    /// How many paths of each sort are listed.
    pub max_entries: usize,
    /// The opening that a compared path must have.
    pub prefix: Option<String>,
    /// The stored target; none where the target is the tree itself.
    pub target: Option<String>,
    /// The target as the request names it.
    pub target_id: String,
}

/// What [`DiffOptions`] hold.
pub struct DiffOptionsView {
    pub verify: Verify,
    pub detect_renames: bool,
    pub max_entries: nat,
    pub prefix: Option<Seq<char>>,
    pub target: Option<Seq<char>>,
    pub target_id: Seq<char>,
}

impl View for DiffOptions {
    type V = DiffOptionsView;

    open spec fn view(&self) -> DiffOptionsView {
        DiffOptionsView {
            verify: self.verify,
            detect_renames: self.detect_renames,
            max_entries: self.max_entries as nat,
            prefix: option_text(self.prefix),
            target: option_text(self.target),
            target_id: self.target_id@,
        }
    }
}

/// The base a diff names.
pub open spec fn diff_base_result(args: JsonTree) -> Result<Seq<char>, Seq<char>> {
    match args.field_text("base"@) {
        Some(label) => label_result(label),
        None => Err("`base` is required"@),
    }
}

/// The verification a request names.
pub open spec fn verify_named(name: Seq<char>) -> Option<Verify> {
    if name == "none"@ {
        Some(Verify::Off)
    } else if name == "suspect"@ {
        Some(Verify::Suspect)
    } else if name == "all"@ {
        Some(Verify::All)
    } else {
        None
    }
}

/// A number brought into the range from one to `most`.
pub open spec fn clamped(n: u64, most: nat) -> nat {
    if n < 1 {
        1
    } else if n > most {
        most
    } else {
        n as nat
    }
}

/// The opening that the paths under a directory share; `None` for the root.
pub open spec fn prefix_of(path: Seq<char>) -> Option<Seq<char>> {
    let slash = |c: char| c == '/';
    let inner = replaced(without_end(without_start(path, slash), slash), '\\', '/');
    if inner.len() == 0 {
        None
    } else {
        Some(inner + "/"@)
    }
}

/// What a diff is asked for.
pub open spec fn diff_options_result(args: JsonTree) -> Result<DiffOptionsView, Seq<char>> {
    let named = match args.field_text("verify"@) {
        Some(name) => name,
        None => "none"@,
    };
    let target_id = match args.field_text("target"@) {
        Some(id) => id,
        None => "live"@,
    };
    match verify_named(named) {
        None => Err("`verify` must be none, suspect or all"@),
        Some(verify) => {
            let view = DiffOptionsView {
                verify,
                detect_renames: args.field_bool("detect_renames"@) == Some(true),
                max_entries: match args.field_unsigned("max_entries"@) {
                    Some(n) => clamped(n, MAX_MAX_ENTRIES as nat),
                    None => DEFAULT_MAX_ENTRIES as nat,
                },
                prefix: match args.field_text("path"@) {
                    Some(path) => prefix_of(path),
                    None => None,
                },
                target: None,
                target_id,
            };
            if target_id == "live"@ {
                Ok(view)
            } else {
                match label_result(target_id) {
                    Ok(id) => Ok(DiffOptionsView { target: Some(id), ..view }),
                    Err(m) => Err(m),
                }
            }
        },
    }
}

/// The base a diff names.
pub fn diff_base(args: &Json) -> (r: Result<String, String>)
    ensures
        crate::snapshot::text_result(r) == diff_base_result(args@),
{
    match args.get_str("base") {
        Some(label) => sanitize_id(label),
        None => Err("`base` is required".to_string()),
    }
}

fn parse_verify(name: &str) -> (r: Option<Verify>)
    ensures
        r == verify_named(name@),
{
    if same(name, "none") {
        Some(Verify::Off)
    } else if same(name, "suspect") {
        Some(Verify::Suspect)
    } else if same(name, "all") {
        Some(Verify::All)
    } else {
        None
    }
}

fn parse_prefix(path: &str) -> (r: Option<String>)
    ensures
        option_text(r) == prefix_of(path@),
{
    let from = trim_start_char(path, '/');
    let inner = trim_end_char(from.as_str(), '/');
    let mut slashed = replace_char(inner.as_str(), '\\', '/');
    proof {
        let a = |c: char| c == '/';
        let b = |x: char| x == '/';
        assert(a =~= b);
    }
    if slashed.as_str().is_empty() {
        None
    } else {
        add_text(&mut slashed, "/");
        Some(slashed)
    }
}

/// The view of a parsed request.
pub open spec fn options_result(
    r: Result<DiffOptions, String>,
) -> Result<DiffOptionsView, Seq<char>> {
    match r {
        Ok(o) => Ok(o@),
        Err(m) => Err(m@),
    }
}

/// Reads what a diff is asked for.
pub fn diff_options(args: &Json) -> (r: Result<DiffOptions, String>)
    ensures
        options_result(r) == diff_options_result(args@),
{
    let named = match args.get_str("verify") {
        Some(name) => name,
        None => "none",
    };
    let verify = match parse_verify(named) {
        Some(verify) => verify,
        None => return Err("`verify` must be none, suspect or all".to_string()),
    };
    let detect_renames = match args.get_bool("detect_renames") {
        Some(b) => b,
        None => false,
    };
    let max_entries: usize = match args.get_u64("max_entries") {
        Some(n) => if n < 1 {
            1
        } else if n > 5000 {
            MAX_MAX_ENTRIES
        } else {
            n as usize
        },
        None => DEFAULT_MAX_ENTRIES,
    };
    let prefix = match args.get_str("path") {
        Some(path) => parse_prefix(path),
        None => None,
    };
    let target_id = match args.get_str("target") {
        Some(id) => id,
        None => "live",
    };
    let target = if same(target_id, "live") {
        None
    } else {
        Some(sanitize_id(target_id)?)
    };
    Ok(
        DiffOptions {
            verify,
            detect_renames,
            max_entries,
            prefix,
            target,
            target_id: owned(target_id),
        },
    )
}

/// The answer where a diff's base is not stored.
pub fn no_base(id: &str) -> (r: String)
    ensures
        r@ == "no snapshot `"@ + id@ + "`; snapshot_list shows the available ones"@,
{
    let mut out = owned("no snapshot `");
    add_text(&mut out, id);
    add_text(&mut out, "`; snapshot_list shows the available ones");
    out
}

/// The answer where a named snapshot is not stored.
pub fn no_snapshot(id: &str) -> (r: String)
    ensures
        r@ == "no snapshot `"@ + id@ + "`"@,
{
    let mut out = owned("no snapshot `");
    add_text(&mut out, id);
    add_text(&mut out, "`");
    out
}

/// The name of a verification mode.
pub open spec fn verify_name(verify: Verify) -> Seq<char> {
    match verify {
        Verify::Off => "none"@,
        Verify::Suspect => "suspect"@,
        Verify::All => "all"@,
    }
}

/// What is said about a verification, if anything.
pub open spec fn verification_note(v: Verification) -> Option<Seq<char>> {
    match v {
        Verification::Off => None,
        Verification::NoBaseHashes(_) => Some(
            "base snapshot holds no content hashes; create it with hash=true to verify"@,
        ),
        Verification::NoTargetHashes(_) => Some("target snapshot holds no content hashes"@),
        Verification::Suspect { hashed, cleared } => Some(
            decimal(cleared as nat) + " of "@ + decimal(hashed as nat)
                + " metadata-flagged files had identical content and were dropped"@,
        ),
        Verification::All { compared, cleared, content_only } => Some(
            "compared "@ + decimal(compared as nat) + " files by content: "@ + decimal(
                cleared as nat,
            ) + " were flagged by metadata but identical, "@ + decimal(content_only as nat)
                + " changed with no metadata trace"@,
        ),
    }
}

/// A verification's mode and whether it ran, as data.
pub open spec fn verification_head(mode: Seq<char>, available: bool) -> Map<Seq<char>, JsonTree> {
    Map::<Seq<char>, JsonTree>::empty().insert("mode"@, JsonTree::Text(mode)).insert(
        "available"@,
        JsonTree::Bool(available),
    )
}

/// A verification as data.
pub open spec fn verification_tree(v: Verification) -> JsonTree {
    let note = JsonTree::Text(verification_note(v)->0);
    match v {
        Verification::Off => JsonTree::Object(verification_head("none"@, false)),
        Verification::NoBaseHashes(verify) => JsonTree::Object(
            verification_head(verify_name(verify), false).insert("note"@, note),
        ),
        Verification::NoTargetHashes(verify) => JsonTree::Object(
            verification_head(verify_name(verify), false).insert("note"@, note),
        ),
        Verification::Suspect { hashed, cleared } => JsonTree::Object(
            verification_head("suspect"@, true).insert("hashed"@, JsonTree::unsigned(hashed)).insert(
                "cleared"@,
                JsonTree::unsigned(cleared),
            ).insert("note"@, note),
        ),
        Verification::All { compared, cleared, content_only } => JsonTree::Object(
            verification_head("all"@, true).insert("compared"@, JsonTree::unsigned(compared)).insert(
                "cleared"@,
                JsonTree::unsigned(cleared),
            ).insert("content_only"@, JsonTree::unsigned(content_only)).insert("note"@, note),
        ),
    }
}

fn mode_name(verify: Verify) -> (r: &'static str)
    ensures
        r@ == verify_name(verify),
{
    match verify {
        Verify::Off => "none",
        Verify::Suspect => "suspect",
        Verify::All => "all",
    }
}

fn note_of(v: Verification) -> (r: Option<String>)
    ensures
        option_text(r) == verification_note(v),
{
    match v {
        Verification::Off => None,
        Verification::NoBaseHashes(_) => Some(
            "base snapshot holds no content hashes; create it with hash=true to verify".to_string(),
        ),
        Verification::NoTargetHashes(_) => Some(
            "target snapshot holds no content hashes".to_string(),
        ),
        Verification::Suspect { hashed, cleared } => {
            let mut out = number(cleared);
            add_text(&mut out, " of ");
            add_number(&mut out, hashed);
            add_text(&mut out, " metadata-flagged files had identical content and were dropped");
            Some(out)
        },
        Verification::All { compared, cleared, content_only } => {
            let mut out = owned("compared ");
            add_number(&mut out, compared);
            add_text(&mut out, " files by content: ");
            add_number(&mut out, cleared);
            add_text(&mut out, " were flagged by metadata but identical, ");
            add_number(&mut out, content_only);
            add_text(&mut out, " changed with no metadata trace");
            Some(out)
        },
    }
}

fn head_json(mode: &str, available: bool) -> (r: Json)
    ensures
        r@ == JsonTree::Object(verification_head(mode@, available)),
{
    Json::object().put("mode", Json::text(mode)).put("available", Json::Bool(available))
}

/// A verification as data.
pub fn verification_json(v: Verification) -> (r: Json)
    ensures
        r@ == verification_tree(v),
{
    let note = match note_of(v) {
        Some(note) => Json::Text(note),
        None => Json::Null,
    };
    match v {
        Verification::Off => head_json("none", false),
        Verification::NoBaseHashes(verify) => head_json(mode_name(verify), false).put("note", note),
        Verification::NoTargetHashes(verify) => head_json(mode_name(verify), false).put(
            "note",
            note,
        ),
        Verification::Suspect { hashed, cleared } => head_json("suspect", true).put(
            "hashed",
            Json::unsigned(hashed),
        ).put("cleared", Json::unsigned(cleared)).put("note", note),
        Verification::All { compared, cleared, content_only } => head_json("all", true).put(
            "compared",
            Json::unsigned(compared),
        ).put("cleared", Json::unsigned(cleared)).put(
            "content_only",
            Json::unsigned(content_only),
        ).put("note", note),
    }
}

/// One line for each change: a marker and the path.
pub open spec fn change_lines(marker: Seq<char>, changes: Seq<ChangeView>) -> Seq<char>
    decreases changes.len(),
{
    if changes.len() == 0 {
        Seq::empty()
    } else {
        change_lines(marker, changes.drop_last()) + (marker + " "@ + changes.last().path + "\n"@)
    }
}

/// The first changes of a list, one line each, and how many more there are.
pub open spec fn section_text(marker: Seq<char>, changes: Seq<ChangeView>, limit: nat) -> Seq<char> {
    change_lines(marker, first(changes, limit)) + if changes.len() > limit {
        marker + " … "@ + decimal((changes.len() - limit) as nat) + " more\n"@
    } else {
        Seq::empty()
    }
}

/// One line for each rename.
pub open spec fn rename_lines(renamed: Seq<(Seq<char>, Seq<char>)>) -> Seq<char>
    decreases renamed.len(),
{
    if renamed.len() == 0 {
        Seq::empty()
    } else {
        rename_lines(renamed.drop_last()) + ("> "@ + renamed.last().0 + " -> "@ + renamed.last().1
            + "\n"@)
    }
}

/// The lists of a diff.
pub struct DiffLists {
    pub added: Seq<ChangeView>,
    pub modified: Seq<ChangeView>,
    pub deleted: Seq<ChangeView>,
    pub renamed: Seq<(Seq<char>, Seq<char>)>,
    pub verification: Verification,
}

/// How many files were added, modified, deleted and renamed.
pub open spec fn summary_text(d: DiffLists) -> Seq<char> {
    "\n"@ + decimal(d.added.len()) + " added, "@ + decimal(d.modified.len()) + " modified, "@
        + decimal(d.deleted.len()) + " deleted"@ + (if d.renamed.len() > 0 {
        ", "@ + decimal(d.renamed.len()) + " renamed"@
    } else {
        Seq::empty()
    }) + ".\n"@
}

/// Whether a diff lists fewer paths than it found.
pub open spec fn is_truncated(d: DiffLists, limit: nat) -> bool {
    d.added.len() > limit || d.modified.len() > limit || d.deleted.len() > limit
}

/// What follows the summary of a diff.
pub open spec fn remarks_text(d: DiffLists, limit: nat) -> Seq<char> {
    (if is_truncated(d, limit) {
        "Listing truncated; see by_directory for where changes cluster.\n"@
    } else {
        Seq::empty()
    }) + match verification_note(d.verification) {
        Some(note) => "Verification: "@ + note + "\n"@,
        None => Seq::empty(),
    }
}

/// A diff as text.
pub open spec fn diff_text(
    base: SnapshotView,
    now: u64,
    target_id: Seq<char>,
    d: DiffLists,
    limit: nat,
) -> Seq<char> {
    base.id + " ("@ + age_text(seconds_between(base.created_at, now)) + ") -> "@ + target_id
        + "\n"@ + section_text("+"@, d.added, limit) + section_text("~"@, d.modified, limit)
        + section_text("-"@, d.deleted, limit) + rename_lines(d.renamed) + summary_text(d)
        + remarks_text(d, limit)
}

fn section(marker: &str, changes: &Vec<Change>, limit: usize) -> (r: String)
    ensures
        r@ == section_text(marker@, change_views(changes@), limit as nat),
{
    let mut out = String::new();
    let total: usize = if changes.len() <= limit {
        changes.len()
    } else {
        limit
    };
    let ghost all = change_views(changes@);
    let mut i: usize = 0;
    assert(all.take(0) =~= Seq::<ChangeView>::empty());
    while i < total
        invariant
            i <= total <= changes@.len(),
            all == change_views(changes@),
            out@ == change_lines(marker@, all.take(i as int)),
        decreases total - i,
    {
        proof {
            assert(all.take(i + 1).drop_last() =~= all.take(i as int));
            assert(all.take(i + 1).last() == changes@[i as int]@);
        }
        let mut line = owned(marker);
        add_text(&mut line, " ");
        add_text(&mut line, changes[i].path.as_str());
        add_text(&mut line, "\n");
        add_text(&mut out, line.as_str());
        i += 1;
    }
    assert(all.take(total as int) =~= first(all, limit as nat));
    let mut more = String::new();
    if changes.len() > limit {
        add_text(&mut more, marker);
        assert(more@ =~= marker@);
        add_text(&mut more, " … ");
        add_number(&mut more, (changes.len() - limit) as u64);
        add_text(&mut more, " more\n");
    }
    add_text(&mut out, more.as_str());
    out
}

fn rename_section(renamed: &Vec<Rename>) -> (r: String)
    ensures
        r@ == rename_lines(rename_views(renamed@)),
{
    let mut out = String::new();
    let ghost all = rename_views(renamed@);
    let mut i: usize = 0;
    assert(all.take(0) =~= Seq::<(Seq<char>, Seq<char>)>::empty());
    while i < renamed.len()
        invariant
            i <= renamed@.len(),
            all == rename_views(renamed@),
            out@ == rename_lines(all.take(i as int)),
        decreases renamed@.len() - i,
    {
        proof {
            assert(all.take(i + 1).drop_last() =~= all.take(i as int));
            assert(all.take(i + 1).last() == (renamed@[i as int].from@, renamed@[i as int].to@));
        }
        let mut line = owned("> ");
        add_text(&mut line, renamed[i].from.as_str());
        add_text(&mut line, " -> ");
        add_text(&mut line, renamed[i].to.as_str());
        add_text(&mut line, "\n");
        add_text(&mut out, line.as_str());
        i += 1;
    }
    assert(all.take(all.len() as int) =~= all);
    out
}

/// The lists of a diff, as they are computed.
pub struct Differences {
    pub added: Vec<Change>,
    pub modified: Vec<Change>,
    pub deleted: Vec<Change>,
    pub renamed: Vec<Rename>,
    pub verification: Verification,
}

impl View for Differences {
    type V = DiffLists;

    open spec fn view(&self) -> DiffLists {
        DiffLists {
            added: change_views(self.added@),
            modified: change_views(self.modified@),
            deleted: change_views(self.deleted@),
            renamed: rename_views(self.renamed@),
            verification: self.verification,
        }
    }
}

fn summary(d: &Differences) -> (r: String)
    ensures
        r@ == summary_text(d@),
{
    let mut out = owned("\n");
    add_number(&mut out, d.added.len() as u64);
    add_text(&mut out, " added, ");
    add_number(&mut out, d.modified.len() as u64);
    add_text(&mut out, " modified, ");
    add_number(&mut out, d.deleted.len() as u64);
    add_text(&mut out, " deleted");
    let mut tail = String::new();
    if d.renamed.len() > 0 {
        tail = owned(", ");
        add_number(&mut tail, d.renamed.len() as u64);
        add_text(&mut tail, " renamed");
    }
    add_text(&mut out, tail.as_str());
    add_text(&mut out, ".\n");
    out
}

fn truncates(d: &Differences, limit: usize) -> (r: bool)
    ensures
        r == is_truncated(d@, limit as nat),
{
    d.added.len() > limit || d.modified.len() > limit || d.deleted.len() > limit
}

fn remarks(d: &Differences, limit: usize) -> (r: String)
    ensures
        r@ == remarks_text(d@, limit as nat),
{
    let mut out = if truncates(d, limit) {
        owned("Listing truncated; see by_directory for where changes cluster.\n")
    } else {
        String::new()
    };
    let mut tail = String::new();
    if let Some(note) = note_of(d.verification) {
        tail = owned("Verification: ");
        add_text(&mut tail, note.as_str());
        add_text(&mut tail, "\n");
    }
    add_text(&mut out, tail.as_str());
    out
}

/// A diff as text.
pub fn render_diff(base: &Snapshot, now: u64, target_id: &str, d: &Differences, limit: usize) -> (r:
    String)
    ensures
        r@ == diff_text(base@, now, target_id@, d@, limit as nat),
{
    let mut out = owned(base.id.as_str());
    add_text(&mut out, " (");
    let since = age(base.created_at, now);
    add_text(&mut out, since.as_str());
    add_text(&mut out, ") -> ");
    add_text(&mut out, target_id);
    add_text(&mut out, "\n");
    let added = section("+", &d.added, limit);
    add_text(&mut out, added.as_str());
    let modified = section("~", &d.modified, limit);
    add_text(&mut out, modified.as_str());
    let deleted = section("-", &d.deleted, limit);
    add_text(&mut out, deleted.as_str());
    let renamed = rename_section(&d.renamed);
    add_text(&mut out, renamed.as_str());
    let counts = summary(d);
    add_text(&mut out, counts.as_str());
    let tail = remarks(d, limit);
    add_text(&mut out, tail.as_str());
    out
}

/// What changed between two observations, as a request asks for it. `paths`
/// and `base_paths` are the paths of the target and of the base, in order.
pub open spec fn differences(
    base: SnapshotView,
    base_paths: Seq<Seq<char>>,
    target: SnapshotView,
    paths: Seq<Seq<char>>,
    options: DiffOptionsView,
    read: Map<Seq<char>, Seq<u8>>,
) -> DiffLists {
    let live = options.target is None;
    let added = only_in(paths, target.files, base.files, options.prefix);
    let deleted = only_in(base_paths, base.files, target.files, options.prefix);
    let (modified, verification) = verified(
        base,
        target,
        paths,
        options.prefix,
        options.verify,
        live,
        read,
    );
    let renamed = if options.detect_renames {
        renames(added, deleted, base, live, read)
    } else {
        Seq::empty()
    };
    DiffLists {
        added: if options.detect_renames {
            not_renamed_to(added, renamed)
        } else {
            added
        },
        modified,
        deleted: if options.detect_renames {
            not_renamed_from(deleted, renamed)
        } else {
            deleted
        },
        renamed,
        verification,
    }
}

/// Compares two observations as a request asks for it. `read` holds the
/// content hashes that were read from a live tree.
pub fn compare(
    base: &Snapshot,
    target: &Snapshot,
    options: &DiffOptions,
    read: &PathMap<[u8; 32]>,
) -> (r: Differences)
    requires
        base.wf(),
        target.wf(),
        read.wf(),
    ensures
        r@ == differences(
            base@,
            base.files.keys(),
            target@,
            target.files.keys(),
            options@,
            hash_views(read@),
        ),
{
    let live = options.target.is_none();
    let added = list_only_in(&target.files, &base.files, &options.prefix);
    let deleted = list_only_in(&base.files, &target.files, &options.prefix);
    let (modified, verification) = verify_changes(
        base,
        target,
        &options.prefix,
        options.verify,
        live,
        read,
    );
    if options.detect_renames {
        let (renamed, added, deleted) = detect_renamed(base, added, deleted, live, read);
        Differences { added, modified, deleted, renamed, verification }
    } else {
        let renamed: Vec<Rename> = Vec::new();
        assert(rename_views(renamed@) =~= Seq::<(Seq<char>, Seq<char>)>::empty());
        Differences { added, modified, deleted, renamed, verification }
    }
}

/// A rename as data.
pub open spec fn rename_tree(rename: (Seq<char>, Seq<char>)) -> JsonTree {
    JsonTree::Object(
        Map::<Seq<char>, JsonTree>::empty().insert("from"@, JsonTree::Text(rename.0)).insert(
            "to"@,
            JsonTree::Text(rename.1),
        ),
    )
}

/// The numbers of changes as data.
pub open spec fn counts_tree(d: DiffLists) -> JsonTree {
    JsonTree::Object(
        Map::<Seq<char>, JsonTree>::empty().insert(
            "added"@,
            JsonTree::unsigned(d.added.len() as u64),
        ).insert("modified"@, JsonTree::unsigned(d.modified.len() as u64)).insert(
            "deleted"@,
            JsonTree::unsigned(d.deleted.len() as u64),
        ).insert("renamed"@, JsonTree::unsigned(d.renamed.len() as u64)),
    )
}

/// The target of a diff as data.
pub open spec fn target_tree(target: SnapshotView, live: bool, now: u64) -> JsonTree {
    if live {
        JsonTree::Object(
            Map::<Seq<char>, JsonTree>::empty().insert("id"@, JsonTree::Text("live"@)).insert(
                "files"@,
                JsonTree::unsigned(target.files.dom().len() as u64),
            ),
        )
    } else {
        snapshot_tree(target, now)
    }
}

/// A diff as data.
pub open spec fn diff_tree(
    base: SnapshotView,
    target: SnapshotView,
    options: DiffOptionsView,
    d: DiffLists,
    now: u64,
    elapsed_ms: u64,
) -> JsonTree {
    let limit = options.max_entries;
    let all = Map::<Seq<char>, JsonTree>::empty().insert("base"@, snapshot_tree(base, now)).insert(
        "target"@,
        target_tree(target, options.target is None, now),
    ).insert("counts"@, counts_tree(d)).insert("added"@, changes_tree(d.added, limit)).insert(
        "modified"@,
        changes_tree(d.modified, limit),
    ).insert("deleted"@, changes_tree(d.deleted, limit)).insert(
        "renamed"@,
        JsonTree::List(d.renamed.map_values(|r: (Seq<char>, Seq<char>)| rename_tree(r))),
    ).insert("truncated"@, JsonTree::Bool(is_truncated(d, limit))).insert(
        "verification"@,
        verification_tree(d.verification),
    ).insert("elapsed_ms"@, JsonTree::unsigned(elapsed_ms));
    if is_truncated(d, limit) {
        JsonTree::Object(
            all.insert("by_directory"@, directories_tree(d.added + d.modified + d.deleted)),
        )
    } else {
        JsonTree::Object(all)
    }
}

fn renames_json(renamed: &Vec<Rename>) -> (r: Json)
    ensures
        r@ == JsonTree::List(
            rename_views(renamed@).map_values(|r: (Seq<char>, Seq<char>)| rename_tree(r)),
        ),
{
    let mut out: Vec<Json> = Vec::new();
    let ghost all = rename_views(renamed@);
    let ghost f = |r: (Seq<char>, Seq<char>)| rename_tree(r);
    let mut i: usize = 0;
    assert(trees(out@) =~= all.take(0).map_values(f));
    while i < renamed.len()
        invariant
            i <= renamed@.len(),
            all == rename_views(renamed@),
            f == (|r: (Seq<char>, Seq<char>)| rename_tree(r)),
            trees(out@) == all.take(i as int).map_values(f),
        decreases renamed@.len() - i,
    {
        let item = Json::object().put("from", Json::text(renamed[i].from.as_str())).put(
            "to",
            Json::text(renamed[i].to.as_str()),
        );
        proof {
            lemma_trees_push(out@, item);
            assert(all.take(i + 1).map_values(f) =~= all.take(i as int).map_values(f).push(item@));
        }
        out.push(item);
        i += 1;
    }
    assert(all.take(all.len() as int) =~= all);
    Json::List(out)
}

/// The answer to a diff.
pub open spec fn diff_answer(
    base: SnapshotView,
    base_paths: Seq<Seq<char>>,
    target: SnapshotView,
    paths: Seq<Seq<char>>,
    options: DiffOptionsView,
    read: Map<Seq<char>, Seq<u8>>,
    now: u64,
    elapsed_ms: u64,
) -> ToolOutputView {
    let d = differences(base, base_paths, target, paths, options, read);
    ToolOutputView {
        text: diff_text(base, now, options.target_id, d, options.max_entries),
        structured: diff_tree(base, target, options, d, now, elapsed_ms),
    }
}

/// A diff of two observations: what changed, as text and as data. `read` holds
/// the content hashes that were read from a live tree, `now` is the time of
/// the answer and `elapsed_ms` how long it took.
pub fn diff(
    base: &Snapshot,
    target: &Snapshot,
    options: &DiffOptions,
    read: &PathMap<[u8; 32]>,
    now: u64,
    elapsed_ms: u64,
) -> (r: ToolOutput)
    requires
        base.wf(),
        target.wf(),
        read.wf(),
        base.files.keys().len() + 2 * target.files.keys().len() <= u64::MAX,
    ensures
        r@ == diff_answer(
            base@,
            base.files.keys(),
            target@,
            target.files.keys(),
            options@,
            hash_views(read@),
            now,
            elapsed_ms,
        ),
        ({
            let d = differences(
                base@,
                base.files.keys(),
                target@,
                target.files.keys(),
                options@,
                hash_views(read@),
            );
            r@ == (ToolOutputView {
                text: diff_text(base@, now, options.target_id@, d, options@.max_entries),
                structured: diff_tree(base@, target@, options@, d, now, elapsed_ms),
            })
        }),
{
    let d = compare(base, target, options, read);
    let limit: usize = options.max_entries;
    let text = render_diff(base, now, options.target_id.as_str(), &d, limit);
    proof {
        target.lemma_file_count();
    }
    let target_json = if options.target.is_none() {
        Json::object().put("id", Json::text("live")).put(
            "files",
            Json::unsigned(target.files.len() as u64),
        )
    } else {
        target.describe(now)
    };
    let counts = Json::object().put("added", Json::unsigned(d.added.len() as u64)).put(
        "modified",
        Json::unsigned(d.modified.len() as u64),
    ).put("deleted", Json::unsigned(d.deleted.len() as u64)).put(
        "renamed",
        Json::unsigned(d.renamed.len() as u64),
    );
    let truncated = truncates(&d, limit);
    let all = Json::object().put("base", base.describe(now)).put("target", target_json).put(
        "counts",
        counts,
    ).put("added", changes_json(&d.added, limit)).put(
        "modified",
        changes_json(&d.modified, limit),
    ).put("deleted", changes_json(&d.deleted, limit)).put("renamed", renames_json(&d.renamed)).put(
        "truncated",
        Json::Bool(truncated),
    ).put("verification", verification_json(d.verification)).put(
        "elapsed_ms",
        Json::unsigned(elapsed_ms),
    );
    let structured = if truncated {
        proof {
            lemma_difference_sizes(
                base@,
                base.files.keys(),
                target@,
                target.files.keys(),
                options@,
                hash_views(read@),
            );
        }
        all.put("by_directory", by_directory(&d.added, &d.modified, &d.deleted))
    } else {
        all
    };
    ToolOutput { text, structured }
}

/// A filtered list is no longer than the list.
proof fn lemma_filter_len<T>(s: Seq<T>, p: spec_fn(T) -> bool)
    ensures
        s.filter(p).len() <= s.len(),
    decreases s.len(),
{
    reveal(Seq::filter);
    if s.len() > 0 {
        lemma_filter_len(s.drop_last(), p);
    }
}

/// No list of a diff is longer than the observation it is taken from.
proof fn lemma_difference_sizes(
    base: SnapshotView,
    base_paths: Seq<Seq<char>>,
    target: SnapshotView,
    paths: Seq<Seq<char>>,
    options: DiffOptionsView,
    read: Map<Seq<char>, Seq<u8>>,
)
    ensures
        ({
            let d = differences(base, base_paths, target, paths, options, read);
            d.added.len() <= paths.len() && d.modified.len() <= paths.len() && d.deleted.len()
                <= base_paths.len()
        }),
{
    let d = differences(base, base_paths, target, paths, options, read);
    let prefix = options.prefix;
    let hashes = target_hashes(target, options.target is None, read);
    let added = only_in(paths, target.files, base.files, prefix);
    let deleted = only_in(base_paths, base.files, target.files, prefix);
    let flagged = changed_by_metadata(paths, base.files, target.files, prefix);
    lemma_filter_map_len(
        paths,
        |path: Seq<char>| lone_report(target.files, base.files, prefix, path),
    );
    lemma_filter_map_len(
        base_paths,
        |path: Seq<char>| lone_report(base.files, target.files, prefix, path),
    );
    lemma_filter_map_len(
        paths,
        |path: Seq<char>|
            change_report(
                base.files,
                target.files,
                prefix,
                path,
                metadata_change(base.files[path], target.files[path]),
            ),
    );
    lemma_filter_map_len(
        paths,
        |path: Seq<char>|
            change_report(
                base.files,
                target.files,
                prefix,
                path,
                content_change(base.files[path], target.files[path], hash_at(hashes, path)),
            ),
    );
    lemma_filter_len(flagged, |c: ChangeView| !is_cleared(c, base.files, hashes));
    lemma_filter_len(
        added,
        |c: ChangeView|
            !d.renamed.map_values(|r: (Seq<char>, Seq<char>)| r.1).contains(c.path),
    );
    lemma_filter_len(
        deleted,
        |c: ChangeView|
            !d.renamed.map_values(|r: (Seq<char>, Seq<char>)| r.0).contains(c.path),
    );
}

/// What a diff counts under a name.
pub open spec fn counted(tree: JsonTree, kind: Seq<char>) -> Option<u64> {
    match tree.field("counts"@) {
        Some(counts) => counts.field_unsigned(kind),
        None => None,
    }
}

/// The counts of a diff are those of all its changes, however many are listed.
pub proof fn law_counts_are_of_all_changes(
    base: SnapshotView,
    target: SnapshotView,
    options: DiffOptionsView,
    d: DiffLists,
    now: u64,
    elapsed_ms: u64,
)
    ensures
        ({
            let tree = diff_tree(base, target, options, d, now, elapsed_ms);
            &&& counted(tree, "added"@) == Some(d.added.len() as u64)
            &&& counted(tree, "modified"@) == Some(d.modified.len() as u64)
            &&& counted(tree, "deleted"@) == Some(d.deleted.len() as u64)
            &&& counted(tree, "renamed"@) == Some(d.renamed.len() as u64)
        }),
{
    reveal_strlit("counts");
    reveal_strlit("added");
    reveal_strlit("modified");
    reveal_strlit("deleted");
    reveal_strlit("renamed");
    reveal_strlit("truncated");
    reveal_strlit("verification");
    reveal_strlit("elapsed_ms");
    reveal_strlit("by_directory");
    assert("counts"@.len() == 6 && "added"@.len() == 5 && "modified"@.len() == 8);
    assert("deleted"@.len() == 7 && "renamed"@.len() == 7 && "truncated"@.len() == 9);
    assert("verification"@.len() == 12 && "elapsed_ms"@.len() == 10);
    assert("by_directory"@.len() == 12);
    assert("deleted"@[0] == 'd' && "renamed"@[0] == 'r');
}

} // verus!
