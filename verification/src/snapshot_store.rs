//! Making snapshots and keeping them: observing a tree, and the tools that
//! create, list and delete what was observed.
use crate::bytes::blake3_hash;
use crate::clock::{seconds_text, Elapsed};
use crate::json::{lemma_trees_push, trees, Json, JsonTree};
use crate::meta::FileVersion;
use crate::order::{keys_of, sorted_indices, stable_order, Ordered};
use crate::path_map::PathMap;
use crate::snapshot::{
    age_text, entry_views, label_result, sanitize_id, seconds_between, snapshot_tree, text_result,
    Entry, EntryView, Snapshot, SnapshotView,
};
use crate::snapshot_diff::{hash_views, option_text};
use crate::snapshot_file::{parse_snapshot, read_snapshot};
use crate::sort::at_places;
use crate::text::{
    add_number, add_text, chars_of, closes, decimal, ends_with, owned, replace_char, replaced,
    string_of,
};
use crate::tool::{ToolOutput, ToolOutputView};
use vstd::prelude::*;

verus! {

/// What a walk shows of a file.
pub struct ObservedFile {
    pub relative_path: String,
    pub size: u64,
    pub mtime: u64,
    pub version: Option<FileVersion>,
}

/// What an observation records of a file, its content unread.
pub open spec fn observed_entry(f: ObservedFile) -> EntryView {
    EntryView {
        size: f.size,
        mtime: f.mtime,
        digest: match f.version {
            Some(v) => if v.trusted() {
                Some(blake3_hash(v.evidence_bytes()).take(16))
            } else {
                None
            },
            None => None,
        },
        hash: None,
    }
}

/// What an observation records of files, under paths with forward slashes.
pub open spec fn observed_files(files: Seq<ObservedFile>) -> Map<Seq<char>, EntryView>
    decreases files.len(),
{
    if files.len() == 0 {
        Map::empty()
    } else {
        observed_files(files.drop_last()).insert(
            replaced(files.last().relative_path@, '\\', '/'),
            observed_entry(files.last()),
        )
    }
}

/// The snapshot of what a walk saw, before it has a name.
pub open spec fn observed(
    files: Seq<ObservedFile>,
    root: Seq<char>,
    created_at: u64,
    no_ignore: bool,
) -> SnapshotView {
    SnapshotView {
        id: Seq::empty(),
        label: Seq::empty(),
        created_at,
        root,
        has_hashes: false,
        no_ignore,
        files: observed_files(files),
    }
}

/// An observation of a tree, without name, label or content hashes. `no_ignore`
/// says that it was walked without its ignore rules.
pub fn observe(files: &Vec<ObservedFile>, root: &str, created_at: u64, no_ignore: bool) -> (r:
    Snapshot)
    requires
        forall|i: int|
            0 <= i < files@.len() ==> ((#[trigger] files@[i]).version matches Some(v) ==> v.wf()),
    ensures
        r@ == observed(files@, root@, created_at, no_ignore),
        r.wf(),
        r@ == (SnapshotView {
            id: Seq::empty(),
            label: Seq::empty(),
            created_at,
            root: root@,
            has_hashes: false,
            no_ignore,
            files: observed_files(files@),
        }),
{
    let mut map: PathMap<Entry> = PathMap::new();
    let mut i: usize = 0;
    assert(entry_views(map@) =~= observed_files(files@.take(0)));
    while i < files.len()
        invariant
            i <= files@.len(),
            map.wf(),
            forall|k: int|
                0 <= k < files@.len() ==> ((#[trigger] files@[k]).version matches Some(v)
                    ==> v.wf()),
            entry_views(map@) == observed_files(files@.take(i as int)),
        decreases files@.len() - i,
    {
        let f = &files[i];
        let ghost before = map@;
        assert(files@.take(i + 1).drop_last() =~= files@.take(i as int));
        assert(files@.take(i + 1).last() == *f);
        assert(files@[i as int].version matches Some(v) ==> v.wf());
        let digest = match &f.version {
            Some(version) => version.evidence_digest(),
            None => None,
        };
        let entry = Entry { size: f.size, mtime: f.mtime, digest, hash: None };
        let path = replace_char(f.relative_path.as_str(), '\\', '/');
        let ghost key = path@;
        map.insert(path, entry);
        assert(entry@ == observed_entry(*f));
        assert(entry_views(map@) =~= entry_views(before).insert(key, entry@));
        i += 1;
    }
    assert(files@.take(files@.len() as int) =~= files@);
    let id = String::new();
    let label = String::new();
    assert(id@ =~= Seq::<char>::empty());
    assert(label@ =~= Seq::<char>::empty());
    Snapshot { id, label, created_at, root: owned(root), has_hashes: false, no_ignore, files: map }
}

/// Entries with the hashes of their content, as far as it could be read.
pub open spec fn hashed_files(
    files: Map<Seq<char>, EntryView>,
    hashes: Map<Seq<char>, Seq<u8>>,
) -> Map<Seq<char>, EntryView> {
    Map::new(
        |path: Seq<char>| files.contains_key(path),
        |path: Seq<char>|
            EntryView {
                hash: if hashes.contains_key(path) {
                    Some(hashes[path])
                } else {
                    None
                },
                ..files[path]
            },
    )
}

/// A snapshot with the hashes of its files.
pub open spec fn with_hashes(s: SnapshotView, hashes: Map<Seq<char>, Seq<u8>>) -> SnapshotView {
    SnapshotView { has_hashes: true, files: hashed_files(s.files, hashes), ..s }
}

/// Records the content hashes that were read.
pub fn record_hashes(snapshot: Snapshot, hashes: &PathMap<[u8; 32]>) -> (r: Snapshot)
    requires
        snapshot.wf(),
        hashes.wf(),
    ensures
        r@ == with_hashes(snapshot@, hash_views(hashes@)),
        r.wf(),
        r@ == (SnapshotView {
            has_hashes: true,
            files: hashed_files(snapshot@.files, hash_views(hashes@)),
            ..snapshot@
        }),
{
    let mut map: PathMap<Entry> = PathMap::new();
    let total: usize = snapshot.files.len();
    let ghost keys = snapshot.files.keys();
    let ghost all = hashed_files(snapshot@.files, hash_views(hashes@));
    let mut i: usize = 0;
    while i < total
        invariant
            i <= total,
            snapshot.wf(),
            hashes.wf(),
            map.wf(),
            keys == snapshot.files.keys(),
            total == keys.len(),
            all == hashed_files(snapshot@.files, hash_views(hashes@)),
            forall|p: Seq<char>| #[trigger]
                map@.contains_key(p) <==> keys.take(i as int).contains(p),
            forall|p: Seq<char>| #[trigger]
                map@.contains_key(p) ==> all.contains_key(p) && map@[p]@ == all[p],
        decreases total - i,
    {
        let path = snapshot.files.key_at(i);
        let entry = snapshot.files.value_at(i);
        let hash = match hashes.get(path) {
            Some(hash) => Some(*hash),
            None => None,
        };
        let hashed = Entry { size: entry.size, mtime: entry.mtime, digest: entry.digest, hash };
        proof {
            crate::evidence::lemma_take_contains(keys, i as int);
            assert(snapshot@.files[path@] == entry@);
            assert(hashed@ == all[path@]);
        }
        map.insert(owned(path), hashed);
        i += 1;
    }
    proof {
        snapshot.files.lemma_keys();
        assert(keys.take(total as int) =~= keys);
        assert forall|p: Seq<char>| #[trigger] all.contains_key(p) <==> map@.contains_key(p) by {
            assert(snapshot.files@.contains_key(p) <==> keys.contains(p));
        }
        assert(entry_views(map@) =~= all);
    }
    Snapshot {
        id: snapshot.id,
        label: snapshot.label,
        created_at: snapshot.created_at,
        root: snapshot.root,
        has_hashes: true,
        no_ignore: snapshot.no_ignore,
        files: map,
    }
}

/// What creating a snapshot asks for.
pub struct CreateRequest {
    pub with_hashes: bool,
    pub no_ignore: bool,
    /// The name, empty where there is none.
    pub label: String,
    pub overwrite: bool,
}

/// What a [`CreateRequest`] holds.
pub struct CreateView {
    pub with_hashes: bool,
    pub no_ignore: bool,
    pub label: Seq<char>,
    pub overwrite: bool,
}

impl View for CreateRequest {
    type V = CreateView;

    open spec fn view(&self) -> CreateView {
        CreateView {
            with_hashes: self.with_hashes,
            no_ignore: self.no_ignore,
            label: self.label@,
            overwrite: self.overwrite,
        }
    }
}

/// What creating a snapshot asks for, or why it is refused.
pub open spec fn create_result(args: JsonTree) -> Result<CreateView, Seq<char>> {
    let view = CreateView {
        with_hashes: args.field_bool("hash"@) == Some(true),
        no_ignore: args.field_bool("no_ignore"@) == Some(true),
        label: Seq::empty(),
        overwrite: args.field_bool("overwrite"@) == Some(true),
    };
    match args.field_text("label"@) {
        Some(label) => match label_result(label) {
            Ok(id) => Ok(CreateView { label: id, ..view }),
            Err(m) => Err(m),
        },
        None => Ok(view),
    }
}

/// Reads what creating a snapshot asks for.
pub fn create_request(args: &Json) -> (r: Result<CreateRequest, String>)
    ensures
        create_result(args@) == (match r {
            Ok(c) => Result::<CreateView, Seq<char>>::Ok(c@),
            Err(m) => Err(m@),
        }),
{
    let label = match args.get_str("label") {
        Some(label) => match sanitize_id(label) {
            Ok(id) => id,
            Err(m) => return Err(m),
        },
        None => {
            let none = String::new();
            assert(none@ =~= Seq::<char>::empty());
            none
        },
    };
    Ok(
        CreateRequest {
            with_hashes: crate::query::flag(args, "hash"),
            no_ignore: crate::query::flag(args, "no_ignore"),
            label,
            overwrite: crate::query::flag(args, "overwrite"),
        },
    )
}

/// The name of a snapshot: its label, or the time it was created at.
pub open spec fn id_for(label: Seq<char>, created_at: u64) -> Seq<char> {
    if label.len() == 0 {
        "snap-"@ + decimal(created_at as nat)
    } else {
        label
    }
}

/// A snapshot under its name.
pub open spec fn named(s: SnapshotView, label: Seq<char>) -> SnapshotView {
    SnapshotView { id: id_for(label, s.created_at), label, ..s }
}

/// Names an observation.
pub fn name_snapshot(snapshot: Snapshot, label: &str) -> (r: Snapshot)
    requires
        snapshot.wf(),
    ensures
        r@ == named(snapshot@, label@),
        r.wf(),
        r.files == snapshot.files,
        r@ == (SnapshotView {
            id: id_for(label@, snapshot.created_at),
            label: label@,
            ..snapshot@
        }),
{
    let id = if label.is_empty() {
        let mut id = owned("snap-");
        add_number(&mut id, snapshot.created_at);
        id
    } else {
        owned(label)
    };
    Snapshot {
        id,
        label: owned(label),
        created_at: snapshot.created_at,
        root: snapshot.root,
        has_hashes: snapshot.has_hashes,
        no_ignore: snapshot.no_ignore,
        files: snapshot.files,
    }
}

/// Why a snapshot is not stored: another has its name, and replacing it was
/// not asked for.
pub fn name_clash(id: &str, taken: bool, overwrite: bool) -> (r: Option<String>)
    ensures
        option_text(r) == clash_of(id@, taken, overwrite),
        option_text(r) == (if taken && !overwrite {
            Some(
                "snapshot `"@ + id@ + "` already exists; pass overwrite=true to replace it"@,
            )
        } else {
            None
        }),
{
    if !taken || overwrite {
        return None;
    }
    let mut m = owned("snapshot `");
    add_text(&mut m, id);
    add_text(&mut m, "` already exists; pass overwrite=true to replace it");
    Some(m)
}

/// What is said where a name is taken and may not be replaced.
pub open spec fn clash_of(id: Seq<char>, taken: bool, overwrite: bool) -> Option<Seq<char>> {
    if taken && !overwrite {
        Some("snapshot `"@ + id + "` already exists; pass overwrite=true to replace it"@)
    } else {
        None
    }
}

/// What is answered when a snapshot is gone.
pub open spec fn deleted_answer(id: Seq<char>) -> ToolOutputView {
    ToolOutputView {
        text: "Deleted snapshot `"@ + id + "`.\n"@,
        structured: JsonTree::Object(
            Map::<Seq<char>, JsonTree>::empty().insert("deleted"@, JsonTree::Text(id)),
        ),
    }
}

/// What the ending of a snapshot's file name is.
pub open spec fn file_ending() -> Seq<char> {
    ".tgsnap"@
}

/// The name of the file a snapshot is stored in.
pub fn snapshot_file_name(id: &str) -> (r: String)
    ensures
        r@ == id@ + file_ending(),
{
    let mut name = owned(id);
    add_text(&mut name, ".tgsnap");
    name
}

/// What is said of the hashes of a new snapshot.
pub open spec fn hashed_note(with_hashes: bool) -> Seq<char> {
    if with_hashes {
        "content hashes recorded: verification and rename detection are available"@
    } else {
        "metadata only: pass hash=true to enable content verification and rename detection"@
    }
}

/// The answer to creating a snapshot.
pub open spec fn created_answer(s: SnapshotView, now: u64, elapsed: Elapsed) -> ToolOutputView {
    ToolOutputView {
        text: "Snapshot `"@ + s.id + "` created: "@ + decimal(s.files.dom().len()) + " files in "@
            + seconds_text(elapsed.secs, elapsed.nanos, 1) + "s ("@ + hashed_note(s.has_hashes)
            + ").\n"@,
        structured: JsonTree::Object(
            Map::<Seq<char>, JsonTree>::empty().insert("snapshot"@, snapshot_tree(s, now)).insert(
                "elapsed_ms"@,
                JsonTree::unsigned(elapsed.millis()),
            ).insert("note"@, JsonTree::Text(hashed_note(s.has_hashes))),
        ),
    }
}

/// Answers the creation of a snapshot.
pub fn create(snapshot: &Snapshot, now: u64, elapsed: Elapsed) -> (r: ToolOutput)
    requires
        snapshot.wf(),
        elapsed.wf(),
    ensures
        r@ == created_answer(snapshot@, now, elapsed),
{
    let note = if snapshot.has_hashes {
        "content hashes recorded: verification and rename detection are available"
    } else {
        "metadata only: pass hash=true to enable content verification and rename detection"
    };
    proof {
        snapshot.lemma_file_count();
    }
    let mut text = owned("Snapshot `");
    add_text(&mut text, snapshot.id.as_str());
    add_text(&mut text, "` created: ");
    add_number(&mut text, snapshot.files.len() as u64);
    add_text(&mut text, " files in ");
    let seconds = elapsed.in_seconds(1);
    add_text(&mut text, seconds.as_str());
    add_text(&mut text, "s (");
    add_text(&mut text, note);
    add_text(&mut text, ").\n");
    let structured = Json::object().put("snapshot", snapshot.describe(now)).put(
        "elapsed_ms",
        Json::unsigned(elapsed.as_millis()),
    ).put("note", Json::text(note));
    ToolOutput { text, structured }
}

/// The snapshot that a request to delete names.
pub open spec fn delete_id_result(args: JsonTree) -> Result<Seq<char>, Seq<char>> {
    match args.field_text("id"@) {
        Some(id) => label_result(id),
        None => Err("`id` is required"@),
    }
}

/// The snapshot that a request to delete names.
pub fn delete_id(args: &Json) -> (r: Result<String, String>)
    ensures
        text_result(r) == delete_id_result(args@),
{
    match args.get_str("id") {
        Some(id) => sanitize_id(id),
        None => Err("`id` is required".to_string()),
    }
}

/// Answers the deletion of a snapshot.
pub fn delete(id: &str) -> (r: ToolOutput)
    ensures
        r@ == deleted_answer(id@),
        r@ == (ToolOutputView {
            text: "Deleted snapshot `"@ + id@ + "`.\n"@,
            structured: JsonTree::Object(
                Map::<Seq<char>, JsonTree>::empty().insert("deleted"@, JsonTree::Text(id@)),
            ),
        }),
{
    let mut text = owned("Deleted snapshot `");
    add_text(&mut text, id);
    add_text(&mut text, "`.\n");
    ToolOutput { text, structured: Json::object().put("deleted", Json::text(id)) }
}

/// A file in the directory of snapshots: its name, and its bytes or why they
/// could not be read.
pub struct StoredFile {
    pub name: String,
    pub content: Result<Vec<u8>, String>,
}

/// The snapshot that a file name stands for, where it is one of a snapshot.
pub open spec fn stem_of(name: Seq<char>) -> Option<Seq<char>> {
    if closes(name, file_ending()) && name.len() > file_ending().len() {
        Some(name.take(name.len() - file_ending().len()))
    } else {
        None
    }
}

/// What is listed of a stored snapshot.
pub enum Listed {
    Stored(SnapshotView),
    Unreadable { id: Seq<char>, error: Seq<char> },
}

/// What is listed of a file.
pub open spec fn listed_file(f: StoredFile) -> Option<Listed> {
    match stem_of(f.name@) {
        None => None,
        Some(id) => Some(
            match f.content {
                Err(e) => Listed::Unreadable { id, error: e@ },
                Ok(bytes) => match parse_snapshot(bytes@, id) {
                    Ok(s) => Listed::Stored(s),
                    Err(m) => Listed::Unreadable { id, error: m },
                },
            },
        ),
    }
}

/// What is listed of a stored snapshot, as data.
pub open spec fn listed_tree(l: Listed, now: u64) -> JsonTree {
    match l {
        Listed::Stored(s) => snapshot_tree(s, now),
        Listed::Unreadable { id, error } => JsonTree::Object(
            Map::<Seq<char>, JsonTree>::empty().insert("id"@, JsonTree::Text(id)).insert(
                "error"@,
                JsonTree::Text(error),
            ),
        ),
    }
}

/// What is listed of a stored snapshot, as a line of text.
pub open spec fn listed_line(l: Listed, now: u64) -> Seq<char> {
    match l {
        Listed::Stored(s) => s.id + "  "@ + decimal(s.files.dom().len()) + " files  "@ + age_text(
            seconds_between(s.created_at, now),
        ) + "  "@ + (if s.has_hashes {
            "hashed"@
        } else {
            "metadata"@
        }) + "\n"@,
        Listed::Unreadable { id, error } => id + "  0 files  ?  metadata\n"@,
    }
}

/// What listed snapshots are ordered by: when they were created, which is not
/// known of all.
pub open spec fn listed_key(l: Listed) -> Option<u64> {
    match l {
        Listed::Stored(s) => Some(s.created_at),
        Listed::Unreadable { .. } => None,
    }
}

/// A snapshot that is to be listed.
struct Listing {
    created_at: Option<u64>,
    json: Json,
    line: String,
}

/// The age of a snapshot; the newest comes first, and unknown ages last.
pub struct Newest {
    pub created_at: Option<u64>,
}

impl Ordered for Newest {
    type Key = Option<u64>;

    open spec fn key(self) -> Option<u64> {
        self.created_at
    }

    open spec fn at_most(a: Option<u64>, b: Option<u64>) -> bool {
        match (a, b) {
            (Some(x), Some(y)) => x >= y,
            (Some(_), None) => true,
            (None, Some(_)) => false,
            (None, None) => true,
        }
    }

    proof fn lemma_total(a: Option<u64>, b: Option<u64>) {
    }

    proof fn lemma_transitive(a: Option<u64>, b: Option<u64>, c: Option<u64>) {
    }

    fn is_at_most(&self, other: &Self) -> (r: bool) {
        match (self.created_at, other.created_at) {
            (Some(x), Some(y)) => x >= y,
            (Some(_), None) => true,
            (None, Some(_)) => false,
            (None, None) => true,
        }
    }
}

/// The stored snapshots of a directory, newest first.
pub open spec fn listed_in_order(files: Seq<StoredFile>) -> Seq<Listed> {
    let all = files.filter_map(|f: StoredFile| listed_file(f));
    at_places(all, sorted_indices::<Newest>(all.map_values(|l: Listed| listed_key(l))))
}

/// Lines of text for listed snapshots.
pub open spec fn listed_lines(list: Seq<Listed>, now: u64) -> Seq<char>
    decreases list.len(),
{
    if list.len() == 0 {
        Seq::empty()
    } else {
        listed_lines(list.drop_last(), now) + listed_line(list.last(), now)
    }
}

/// The answer to a request for the list of snapshots.
pub open spec fn list_answer(files: Seq<StoredFile>, now: u64) -> ToolOutputView {
    let list = listed_in_order(files);
    ToolOutputView {
        text: if list.len() == 0 {
            "No snapshots. Create one with snapshot_create.\n"@
        } else {
            listed_lines(list, now)
        },
        structured: JsonTree::Object(
            Map::<Seq<char>, JsonTree>::empty().insert(
                "snapshots"@,
                JsonTree::List(list.map_values(|l: Listed| listed_tree(l, now))),
            ),
        ),
    }
}

fn stem(name: &str) -> (r: Option<String>)
    ensures
        option_text(r) == stem_of(name@),
{
    if !ends_with(name, ".tgsnap") {
        return None;
    }
    let chars = chars_of(name);
    let n: usize = ".tgsnap".unicode_len();
    if chars.len() <= n {
        return None;
    }
    assert(name@.take(name@.len() - n) =~= chars@.subrange(0, chars@.len() - n));
    Some(string_of(&chars, 0, chars.len() - n))
}

fn unreadable(id: String, error: &str) -> (r: Listing)
    ensures
        r.created_at is None,
        forall|now: u64| #[trigger]
            listed_tree(Listed::Unreadable { id: id@, error: error@ }, now) == r.json@,
        forall|now: u64| #[trigger]
            listed_line(Listed::Unreadable { id: id@, error: error@ }, now) == r.line@,
{
    let json = Json::object().put("id", Json::text(id.as_str())).put("error", Json::text(error));
    let mut line = id;
    add_text(&mut line, "  0 files  ?  metadata\n");
    Listing { created_at: None, json, line }
}

fn listing_of(file: &StoredFile, now: u64) -> (r: Option<Listing>)
    ensures
        match r {
            Some(l) => listed_file(*file) matches Some(x) && listed_key(x) == l.created_at
                && listed_tree(x, now) == l.json@ && listed_line(x, now) == l.line@,
            None => listed_file(*file) is None,
        },
{
    let id = match stem(file.name.as_str()) {
        Some(id) => id,
        None => return None,
    };
    let bytes = match &file.content {
        Ok(bytes) => bytes,
        Err(e) => {
            let ghost x = Listed::Unreadable { id: id@, error: e@ };
            let l = unreadable(id, e.as_str());
            assert(listed_tree(x, now) == l.json@);
            assert(listed_line(x, now) == l.line@);
            return Some(l);
        },
    };
    match read_snapshot(bytes.as_slice(), id.as_str()) {
        Ok(s) => {
            proof {
                s.lemma_file_count();
            }
            let mut line = s.id.clone();
            add_text(&mut line, "  ");
            add_number(&mut line, s.files.len() as u64);
            add_text(&mut line, " files  ");
            let age = crate::snapshot::age(s.created_at, now);
            add_text(&mut line, age.as_str());
            add_text(&mut line, "  ");
            add_text(
                &mut line,
                if s.has_hashes {
                    "hashed"
                } else {
                    "metadata"
                },
            );
            add_text(&mut line, "\n");
            Some(Listing { created_at: Some(s.created_at), json: s.describe(now), line })
        },
        Err(m) => {
            let ghost x = Listed::Unreadable { id: id@, error: m@ };
            let l = unreadable(id, m.as_str());
            assert(listed_tree(x, now) == l.json@);
            assert(listed_line(x, now) == l.line@);
            Some(l)
        },
    }
}

/// Answers a request for the list of snapshots, from the files in their
/// directory.
pub fn list(files: &Vec<StoredFile>, now: u64) -> (r: ToolOutput)
    ensures
        r@ == list_answer(files@, now),
{
    let mut items: Vec<Listing> = Vec::new();
    let mut ages: Vec<Newest> = Vec::new();
    let ghost f = |x: StoredFile| listed_file(x);
    let ghost all = files@.filter_map(f);
    let mut i: usize = 0;
    assert(files@.take(0).filter_map(f) =~= Seq::<Listed>::empty());
    while i < files.len()
        invariant
            i <= files@.len(),
            f == (|x: StoredFile| listed_file(x)),
            items@.len() == ages@.len(),
            items@.len() == files@.take(i as int).filter_map(f).len(),
            forall|k: int|
                0 <= k < items@.len() ==> {
                    let x = #[trigger] files@.take(i as int).filter_map(f)[k];
                    listed_key(x) == items@[k].created_at && listed_tree(x, now)
                        == items@[k].json@ && listed_line(x, now) == items@[k].line@
                        && ages@[k].created_at == items@[k].created_at
                },
        decreases files@.len() - i,
    {
        let ghost done = files@.take(i as int).filter_map(f);
        assert(files@.take(i + 1).drop_last() =~= files@.take(i as int));
        assert(files@.take(i + 1).last() == files@[i as int]);
        let ghost items_before = items@;
        let ghost ages_before = ages@;
        if let Some(l) = listing_of(&files[i], now) {
            ages.push(Newest { created_at: l.created_at });
            items.push(l);
        }
        proof {
            let next = files@.take(i + 1).filter_map(f);
            assert forall|k: int| 0 <= k < items@.len() implies {
                let x = #[trigger] next[k];
                listed_key(x) == items@[k].created_at && listed_tree(x, now) == items@[k].json@
                    && listed_line(x, now) == items@[k].line@ && ages@[k].created_at
                    == items@[k].created_at
            } by {
                if k < done.len() {
                    assert(next[k] == done[k]);
                    assert(items@[k] == items_before[k]);
                    assert(ages@[k] == ages_before[k]);
                }
            }
        }
        i += 1;
    }
    assert(files@.take(files@.len() as int) =~= files@);
    let ghost keys = all.map_values(|l: Listed| listed_key(l));
    assert(keys_of(ages@) =~= keys);
    let order = stable_order(&ages);
    let ghost list = at_places(all, order@);
    let ghost g = |l: Listed| listed_tree(l, now);
    let mut text = String::new();
    let mut out: Vec<Json> = Vec::new();
    let mut j: usize = 0;
    assert(list.take(0) =~= Seq::<Listed>::empty());
    assert(trees(out@) =~= list.take(0).map_values(g));
    while j < order.len()
        invariant
            j <= order@.len(),
            list == at_places(all, order@),
            g == (|l: Listed| listed_tree(l, now)),
            items@.len() == all.len(),
            forall|k: int| 0 <= k < order@.len() ==> #[trigger] order@[k] < items@.len(),
            forall|k: int|
                0 <= k < items@.len() ==> {
                    let x = #[trigger] all[k];
                    listed_tree(x, now) == items@[k].json@ && listed_line(x, now)
                        == items@[k].line@
                },
            text@ == listed_lines(list.take(j as int), now),
            trees(out@) == list.take(j as int).map_values(g),
        decreases order@.len() - j,
    {
        let at: usize = order[j];
        let ghost x = all[at as int];
        assert(list[j as int] == x);
        assert(list.take(j + 1).drop_last() =~= list.take(j as int));
        assert(list.take(j + 1).last() == x);
        add_text(&mut text, items[at].line.as_str());
        let item = items[at].json.copy();
        proof {
            lemma_trees_push(out@, item);
            assert(list.take(j + 1).map_values(g) =~= list.take(j as int).map_values(g).push(
                item@,
            ));
        }
        out.push(item);
        j += 1;
    }
    assert(list.take(list.len() as int) =~= list);
    if order.len() == 0 {
        text = owned("No snapshots. Create one with snapshot_create.\n");
    }
    let structured = Json::object().put("snapshots", Json::List(out));
    ToolOutput { text, structured }
}

} // verus!
