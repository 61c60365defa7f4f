//! Folder snapshots: what was observed of every file of a tree, and the
//! requests that create, list and delete stored observations.
use crate::bytes::{blake3_hash, content_hash};
use crate::json::{Json, JsonTree};
use crate::path_map::PathMap;
use crate::text::{byte_len, chars_of, decimal, number, trim, trimmed};
use vstd::prelude::*;
use vstd::utf8::encode_utf8;

verus! {

/// One observation of a file.
#[derive(Clone, Copy, Debug, PartialEq, Eq)]
pub struct Entry {
    pub size: u64,
    pub mtime: u64,
    /// Digest over every change-detection field the platform supplied; absent
    /// where that evidence is incomplete.
    pub digest: Option<[u8; 16]>,
    /// Hash of the content, where it was read.
    pub hash: Option<[u8; 32]>,
}

/// What an [`Entry`] records.
pub struct EntryView {
    pub size: u64,
    pub mtime: u64,
    pub digest: Option<Seq<u8>>,
    pub hash: Option<Seq<u8>>,
}

/// The bytes of an array that may be absent.
pub open spec fn option_bytes<const N: usize>(a: Option<[u8; N]>) -> Option<Seq<u8>> {
    match a {
        Some(bytes) => Some(bytes@),
        None => None,
    }
}

impl View for Entry {
    type V = EntryView;

    open spec fn view(&self) -> EntryView {
        EntryView {
            size: self.size,
            mtime: self.mtime,
            digest: option_bytes(self.digest),
            hash: option_bytes(self.hash),
        }
    }
}

/// An observation of a whole tree.
#[derive(Debug, PartialEq, Eq)]
pub struct Snapshot {
    pub id: String,
    pub label: String,
    pub created_at: u64,
    pub root: String,
    /// Whether content hashes were recorded.
    pub has_hashes: bool,
    /// Whether the tree was walked without its ignore rules.
    pub no_ignore: bool,
    pub files: PathMap<Entry>,
}

/// What a [`Snapshot`] records.
pub struct SnapshotView {
    pub id: Seq<char>,
    pub label: Seq<char>,
    pub created_at: u64,
    pub root: Seq<char>,
    pub has_hashes: bool,
    pub no_ignore: bool,
    pub files: Map<Seq<char>, EntryView>,
}

/// What the entries of a map record.
pub open spec fn entry_views(files: Map<Seq<char>, Entry>) -> Map<Seq<char>, EntryView> {
    files.map_values(|e: Entry| e@)
}

impl View for Snapshot {
    type V = SnapshotView;

    open spec fn view(&self) -> SnapshotView {
        SnapshotView {
            id: self.id@,
            label: self.label@,
            created_at: self.created_at,
            root: self.root@,
            has_hashes: self.has_hashes,
            no_ignore: self.no_ignore,
            files: entry_views(self.files@),
        }
    }
}

/// A snapshot as data, as of the time `now`.
pub open spec fn snapshot_tree(s: SnapshotView, now: u64) -> JsonTree {
    JsonTree::Object(
        Map::<Seq<char>, JsonTree>::empty().insert("id"@, JsonTree::Text(s.id)).insert(
            "label"@,
            JsonTree::Text(s.label),
        ).insert("created_at"@, JsonTree::unsigned(s.created_at)).insert(
            "age"@,
            JsonTree::Text(age_text(seconds_between(s.created_at, now))),
        ).insert("files"@, JsonTree::unsigned(s.files.dom().len() as u64)).insert(
            "content_hashes"@,
            JsonTree::Bool(s.has_hashes),
        ).insert("root"@, JsonTree::Text(s.root)),
    )
}

impl Snapshot {
    /// The file map is in order.
    pub open spec fn wf(self) -> bool {
        self.files.wf()
    }

    /// The files of a snapshot are counted by its keys.
    pub proof fn lemma_file_count(self)
        requires
            self.wf(),
        ensures
            self@.files.dom().len() == self.files.keys().len(),
    {
        self.files.lemma_keys();
        assert(self@.files.dom() =~= self.files@.dom());
    }

    /// The snapshot as data.
    pub fn describe(&self, now: u64) -> (r: Json)
        requires
            self.wf(),
        ensures
            r@ == snapshot_tree(self@, now),
    {
        proof {
            self.lemma_file_count();
        }
        let age = age(self.created_at, now);
        Json::object().put("id", Json::text(self.id.as_str())).put(
            "label",
            Json::text(self.label.as_str()),
        ).put("created_at", Json::unsigned(self.created_at)).put("age", Json::Text(age)).put(
            "files",
            Json::unsigned(self.files.len() as u64),
        ).put("content_hashes", Json::Bool(self.has_hashes)).put(
            "root",
            Json::text(self.root.as_str()),
        )
    }
}

/// The hash by which content is compared.
pub fn hash_content(content: &[u8]) -> (r: [u8; 32])
    ensures
        r@ == blake3_hash(content@),
{
    content_hash(content)
}

/// How long ago something happened, in the largest whole unit.
pub open spec fn age_text(seconds: u64) -> Seq<char> {
    if seconds < 60 {
        decimal(seconds as nat) + "s ago"@
    } else if seconds < 3600 {
        decimal((seconds / 60) as nat) + "m ago"@
    } else if seconds < 86400 {
        decimal((seconds / 3600) as nat) + "h ago"@
    } else {
        decimal((seconds / 86400) as nat) + "d ago"@
    }
}

/// The seconds from one time to another, none where the other comes first.
pub open spec fn seconds_between(from: u64, to: u64) -> u64 {
    if to >= from {
        (to - from) as u64
    } else {
        0
    }
}

/// How long before `now` a snapshot was created.
pub fn age(created_at: u64, now: u64) -> (r: String)
    ensures
        r@ == age_text(seconds_between(created_at, now)),
{
    let seconds: u64 = if now >= created_at {
        now - created_at
    } else {
        0
    };
    let mut out: String;
    if seconds < 60 {
        out = number(seconds);
        out.append("s ago");
    } else if seconds < 3600 {
        out = number(seconds / 60);
        out.append("m ago");
    } else if seconds < 86400 {
        out = number(seconds / 3600);
        out.append("h ago");
    } else {
        out = number(seconds / 86400);
        out.append("d ago");
    }
    out
}

/// The characters a snapshot's name may hold.
pub open spec fn is_label_char(c: char) -> bool {
    ||| 'a' <= c <= 'z'
    ||| 'A' <= c <= 'Z'
    ||| '0' <= c <= '9'
    ||| c == '.'
    ||| c == '_'
    ||| c == '-'
}

/// Whether a name is a plain file name: one to sixty-four bytes, all of them
/// letters, digits or one of `.`, `_` and `-`.
pub open spec fn is_label(id: Seq<char>) -> bool {
    &&& 1 <= encode_utf8(id).len() <= 64
    &&& forall|i: int| 0 <= i < id.len() ==> is_label_char(#[trigger] id[i])
}

/// What a request's label names, or why it is refused.
pub open spec fn label_result(label: Seq<char>) -> Result<Seq<char>, Seq<char>> {
    let id = trimmed(label);
    let length = encode_utf8(id).len();
    if length == 0 || length > 64 {
        Err("`label` must be 1-64 characters"@)
    } else if !is_label(id) {
        Err("`label` may only contain letters, digits, '.', '_' and '-'"@)
    } else {
        Ok(id)
    }
}

/// The view of a result that is text either way.
pub open spec fn text_result(r: Result<String, String>) -> Result<Seq<char>, Seq<char>> {
    match r {
        Ok(s) => Ok(s@),
        Err(m) => Err(m@),
    }
}

/// The name a request gives a snapshot. Anything that would not round-trip as
/// a plain file name is refused.
#[verifier::loop_isolation(false)]
pub fn sanitize_id(label: &str) -> (r: Result<String, String>)
    ensures
        text_result(r) == label_result(label@),
        r matches Ok(id) ==> is_label(id@),
{
    let id = trim(label);
    let length: usize = byte_len(id.as_str());
    if length == 0 || length > 64 {
        return Err("`label` must be 1-64 characters".to_string());
    }
    let chars = chars_of(id.as_str());
    let mut i: usize = 0;
    while i < chars.len()
        invariant
            i <= chars@.len(),
            chars@ == id@,
            forall|j: int| 0 <= j < i ==> is_label_char(#[trigger] id@[j]),
        decreases chars@.len() - i,
    {
        let c = chars[i];
        let allowed = ('a' <= c && c <= 'z') || ('A' <= c && c <= 'Z') || ('0' <= c && c <= '9')
            || c == '.' || c == '_' || c == '-';
        if !allowed {
            assert(!is_label_char(id@[i as int]));
            assert(!is_label(id@));
            return Err(
                "`label` may only contain letters, digits, '.', '_' and '-'".to_string(),
            );
        }
        i += 1;
    }
    Ok(id)
}

} // verus!
