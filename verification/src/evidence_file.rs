//! The stored form of per-path evidence.
//!
//! There is one entry for each path: `mtime` and `size`, and beside them, where
//! there is evidence, the content identity in hexadecimal notation under `c` and
//! the precise version under `v`.
use crate::evidence::{
    decoded_version, family_of, law_stored_version_is_read_back, lemma_last_contains, option_id,
    option_persisted, persisted_view, whole_seconds, EvidenceView, FileEvidence, PersistedVersion,
    PersistedView, Platform,
};
use crate::fields::{as_record, record, str_views};
use crate::json::{entries, Json, JsonTree};
use crate::meta::{
    hex_text, law_hex_text_is_read_back, ContentId, Family, FileStamp, FileVersion, UnixVersion,
    VersionTime,
};
use crate::snapshot_diff::option_text;
use crate::text::{owned, same};
use vstd::prelude::*;

verus! {

/// A distance from the epoch as data.
pub open spec fn time_tree(t: VersionTime) -> JsonTree {
    JsonTree::Object(
        Map::<Seq<char>, JsonTree>::empty().insert(
            "before_epoch"@,
            JsonTree::Bool(t.before_epoch),
        ).insert("seconds"@, JsonTree::unsigned(t.seconds)).insert(
            "nanos"@,
            JsonTree::unsigned(t.nanos as u64),
        ),
    )
}

/// The Unix fields of a version as data.
pub open spec fn unix_tree(u: UnixVersion) -> JsonTree {
    JsonTree::Object(
        Map::<Seq<char>, JsonTree>::empty().insert("device"@, JsonTree::unsigned(u.device)).insert(
            "inode"@,
            JsonTree::unsigned(u.inode),
        ).insert("change_seconds"@, JsonTree::signed(u.change_seconds)).insert(
            "change_nanos"@,
            JsonTree::signed(u.change_nanos),
        ),
    )
}

/// A stored version as data. An absent birth time is an explicit `null`.
pub open spec fn persisted_tree(p: PersistedView) -> JsonTree {
    let head = Map::<Seq<char>, JsonTree>::empty().insert(
        "schema"@,
        JsonTree::unsigned(p.schema as u64),
    ).insert("platform"@, JsonTree::Text(p.platform)).insert(
        "size"@,
        JsonTree::unsigned(p.size),
    ).insert("modified"@, time_tree(p.modified)).insert(
        "created"@,
        match p.created {
            Some(t) => time_tree(t),
            None => JsonTree::Null,
        },
    );
    match p.unix {
        Some(u) => JsonTree::Object(head.insert("unix"@, unix_tree(u))),
        None => JsonTree::Object(head),
    }
}

/// The stored version of a path, where one may be relied on.
pub open spec fn stored_version(e: EvidenceView, path: Seq<char>, os: Seq<char>) -> Option<
    PersistedView,
> {
    match e.usable_version(path) {
        Some(v) => persisted_view(v, os),
        None => None,
    }
}

/// The stored identity of a path.
pub open spec fn stored_id(e: EvidenceView, path: Seq<char>) -> Option<Seq<u8>> {
    if e.content_ids.contains_key(path) {
        Some(e.content_ids[path])
    } else {
        None
    }
}

/// Whether an object has no key outside a list.
pub open spec fn only_keys(tree: JsonTree, keys: Seq<Seq<char>>) -> bool {
    tree matches JsonTree::Object(map) && forall|k: Seq<char>| #[trigger]
        map.contains_key(k) ==> keys.contains(k)
}

/// The fields of a distance from the epoch, in order.
pub open spec fn time_keys() -> Seq<Seq<char>> {
    seq!["before_epoch"@, "seconds"@, "nanos"@]
}

/// The distance from the epoch that a value stands for.
pub open spec fn parsed_time(value: JsonTree) -> Option<VersionTime> {
    let tree = record(value, time_keys(), 3);
    match (tree.field_bool("before_epoch"@), tree.field_unsigned("seconds"@), tree.field_unsigned(
        "nanos"@,
    )) {
        (Some(before_epoch), Some(seconds), Some(nanos)) if nanos <= u32::MAX && only_keys(
            tree,
            time_keys(),
        ) => Some(VersionTime { before_epoch, seconds, nanos: nanos as u32 }),
        _ => None,
    }
}

/// The signed integer under a key of an object.
pub open spec fn field_signed(tree: JsonTree, key: Seq<char>) -> Option<i64> {
    match tree.field(key) {
        Some(v) => v.as_signed(),
        None => None,
    }
}

/// The Unix fields of a version, in order.
pub open spec fn unix_keys() -> Seq<Seq<char>> {
    seq!["device"@, "inode"@, "change_seconds"@, "change_nanos"@]
}

/// The Unix fields that a value stands for.
pub open spec fn parsed_unix(value: JsonTree) -> Option<UnixVersion> {
    let tree = record(value, unix_keys(), 4);
    match (
        tree.field_unsigned("device"@),
        tree.field_unsigned("inode"@),
        field_signed(tree, "change_seconds"@),
        field_signed(tree, "change_nanos"@),
    ) {
        (Some(device), Some(inode), Some(change_seconds), Some(change_nanos)) if only_keys(
            tree,
            unix_keys(),
        ) => Some(UnixVersion { device, inode, change_seconds, change_nanos }),
        _ => None,
    }
}

/// A value that may be `null`: the outer option says whether it is well formed.
pub open spec fn parsed_optional_time(tree: JsonTree) -> Option<Option<VersionTime>> {
    match tree {
        JsonTree::Null => Some(None),
        _ => match parsed_time(tree) {
            Some(t) => Some(Some(t)),
            None => None,
        },
    }
}

/// The Unix fields of a stored version, which may be missing or `null`.
pub open spec fn parsed_optional_unix(tree: Option<JsonTree>) -> Option<Option<UnixVersion>> {
    match tree {
        None => Some(None),
        Some(JsonTree::Null) => Some(None),
        Some(tree) => match parsed_unix(tree) {
            Some(u) => Some(Some(u)),
            None => None,
        },
    }
}

/// The fields of a stored version, in order.
pub open spec fn persisted_keys() -> Seq<Seq<char>> {
    seq!["schema"@, "platform"@, "size"@, "modified"@, "created"@, "unix"@]
}

/// The stored version that a value stands for. Every field but the Unix ones
/// must be there.
pub open spec fn parsed_persisted(value: JsonTree) -> Option<PersistedView> {
    let tree = record(value, persisted_keys(), 6);
    match (
        tree.field_unsigned("schema"@),
        tree.field_text("platform"@),
        tree.field_unsigned("size"@),
        tree.field("modified"@),
        tree.field("created"@),
    ) {
        (Some(schema), Some(platform), Some(size), Some(modified), Some(created)) => match (
            parsed_time(modified),
            parsed_optional_time(created),
            parsed_optional_unix(tree.field("unix"@)),
        ) {
            (Some(modified), Some(created), Some(unix)) if schema <= u32::MAX && only_keys(
                tree,
                persisted_keys(),
            ) => Some(
                PersistedView { schema: schema as u32, platform, size, modified, created, unix },
            ),
            _ => None,
        },
        _ => None,
    }
}

/// Whether a text is the hexadecimal notation of an identity.
pub open spec fn is_id_text(text: Seq<char>) -> bool {
    exists|id: Seq<u8>| id.len() == 16 && #[trigger] hex_text(id) == text
}

fn time_json(t: &VersionTime) -> (r: Json)
    ensures
        r@ == time_tree(*t),
{
    Json::object().put("before_epoch", Json::Bool(t.before_epoch)).put(
        "seconds",
        Json::unsigned(t.seconds),
    ).put("nanos", Json::unsigned(t.nanos as u64))
}

fn unix_json(u: &UnixVersion) -> (r: Json)
    ensures
        r@ == unix_tree(*u),
{
    Json::object().put("device", Json::unsigned(u.device)).put(
        "inode",
        Json::unsigned(u.inode),
    ).put("change_seconds", Json::signed(u.change_seconds)).put(
        "change_nanos",
        Json::signed(u.change_nanos),
    )
}

impl PersistedVersion {
    /// The stored version as data.
    pub fn to_json(&self) -> (r: Json)
        ensures
            r@ == persisted_tree(self@),
    {
        let created = match &self.created {
            Some(t) => time_json(t),
            None => Json::Null,
        };
        let head = Json::object().put("schema", Json::unsigned(self.schema as u64)).put(
            "platform",
            Json::text(self.platform.as_str()),
        ).put("size", Json::unsigned(self.size)).put("modified", time_json(&self.modified)).put(
            "created",
            created,
        );
        match &self.unix {
            Some(u) => head.put("unix", unix_json(u)),
            None => head,
        }
    }

    /// The stored version that a value stands for.
    pub fn from_json(json: &Json) -> (r: Option<PersistedVersion>)
        ensures
            option_persisted(r) == parsed_persisted(json@),
    {
        let known: Vec<&str> = vec!["schema", "platform", "size", "modified", "created", "unix"];
        assert(str_views(known@) =~= persisted_keys());
        let value = as_record(json, &known, 6);
        let json = &value;
        let schema: u64 = json.get_u64("schema")?;
        let platform = json.get_str("platform")?;
        let size: u64 = json.get_u64("size")?;
        let modified_json = json.get("modified")?;
        let created_json = json.get("created")?;
        let modified = read_time(modified_json)?;
        let created = if created_json.is_null() {
            None
        } else {
            Some(read_time(created_json)?)
        };
        let unix = match json.get("unix") {
            Some(u) => if u.is_null() {
                None
            } else {
                Some(read_unix(u)?)
            },
            None => None,
        };
        if schema > u32::MAX as u64 {
            return None;
        }
        if !has_only(json, &known) {
            return None;
        }
        Some(
            PersistedVersion {
                schema: schema as u32,
                platform: owned(platform),
                size,
                modified,
                created,
                unix,
            },
        )
    }
}

fn list_has(list: &Vec<&str>, s: &str) -> (r: bool)
    ensures
        r == str_views(list@).contains(s@),
{
    let mut i: usize = 0;
    while i < list.len()
        invariant
            i <= list@.len(),
            forall|j: int| 0 <= j < i ==> str_views(list@)[j] != s@,
        decreases list@.len() - i,
    {
        if same(list[i], s) {
            assert(str_views(list@)[i as int] == s@);
            return true;
        }
        i += 1;
    }
    false
}

/// The keys of an object's entries are the keys of its map.
proof fn lemma_entry_keys(items: Seq<(String, Json)>)
    ensures
        forall|i: int| 0 <= i < items.len() ==> entries(items).contains_key(#[trigger] items[i].0@),
        forall|k: Seq<char>| #[trigger]
            entries(items).contains_key(k) ==> exists|i: int|
                0 <= i < items.len() && #[trigger] items[i].0@ == k,
    decreases items.len(),
{
    if items.len() > 0 {
        let front = items.drop_last();
        lemma_entry_keys(front);
        assert forall|i: int| 0 <= i < items.len() implies entries(items).contains_key(
            #[trigger] items[i].0@,
        ) by {
            if i < front.len() {
                assert(front[i].0@ == items[i].0@);
            }
        }
        assert forall|k: Seq<char>| #[trigger] entries(items).contains_key(k) implies exists|i: int|
            0 <= i < items.len() && #[trigger] items[i].0@ == k by {
            if k == items.last().0@ {
                assert(items[items.len() - 1].0@ == k);
            } else {
                assert(entries(front).contains_key(k));
                let i = choose|i: int| 0 <= i < front.len() && #[trigger] front[i].0@ == k;
                assert(items[i].0@ == k);
            }
        }
    }
}

/// Whether a value is an object without keys outside the list.
fn has_only(json: &Json, keys: &Vec<&str>) -> (r: bool)
    ensures
        r == only_keys(json@, str_views(keys@)),
{
    match json {
        Json::Object(items) => {
            proof {
                lemma_entry_keys(items@);
            }
            let mut i: usize = 0;
            while i < items.len()
                invariant
                    i <= items@.len(),
                    json@ == JsonTree::Object(entries(items@)),
                    forall|j: int|
                        0 <= j < items@.len() ==> entries(items@).contains_key(
                            #[trigger] items@[j].0@,
                        ),
                    forall|j: int|
                        0 <= j < i ==> str_views(keys@).contains(#[trigger] items@[j].0@),
                decreases items@.len() - i,
            {
                if !list_has(keys, items[i].0.as_str()) {
                    let ghost k = items@[i as int].0@;
                    assert(json@->Object_0.contains_key(k));
                    assert(!str_views(keys@).contains(k));
                    return false;
                }
                i += 1;
            }
            assert forall|k: Seq<char>| #[trigger] entries(items@).contains_key(k) implies str_views(
                keys@,
            ).contains(k) by {
                let j = choose|j: int| 0 <= j < items@.len() && #[trigger] items@[j].0@ == k;
                assert(str_views(keys@).contains(items@[j].0@));
            }
            true
        },
        _ => false,
    }
}

fn read_time(json: &Json) -> (r: Option<VersionTime>)
    ensures
        r == parsed_time(json@),
{
    let known: Vec<&str> = vec!["before_epoch", "seconds", "nanos"];
    assert(str_views(known@) =~= time_keys());
    let value = as_record(json, &known, 3);
    let json = &value;
    let before_epoch = json.get_bool("before_epoch")?;
    let seconds: u64 = json.get_u64("seconds")?;
    let nanos: u64 = json.get_u64("nanos")?;
    if nanos > u32::MAX as u64 {
        return None;
    }
    if !has_only(json, &known) {
        return None;
    }
    Some(VersionTime { before_epoch, seconds, nanos: nanos as u32 })
}

fn get_signed(json: &Json, key: &str) -> (r: Option<i64>)
    ensures
        r == field_signed(json@, key@),
{
    match json.get(key) {
        Some(v) => v.as_i64(),
        None => None,
    }
}

fn read_unix(json: &Json) -> (r: Option<UnixVersion>)
    ensures
        r == parsed_unix(json@),
{
    let known: Vec<&str> = vec!["device", "inode", "change_seconds", "change_nanos"];
    assert(str_views(known@) =~= unix_keys());
    let value = as_record(json, &known, 4);
    let json = &value;
    let device: u64 = json.get_u64("device")?;
    let inode: u64 = json.get_u64("inode")?;
    let change_seconds: i64 = get_signed(json, "change_seconds")?;
    let change_nanos: i64 = get_signed(json, "change_nanos")?;
    if !has_only(json, &known) {
        return None;
    }
    Some(UnixVersion { device, inode, change_seconds, change_nanos })
}

/// Whether evidence can be stored without loss on a platform: it is
/// consistent, its identities are sixteen bytes long, and the stamp of each
/// version is that of its modification time.
pub open spec fn is_storable(e: EvidenceView, family: Family) -> bool {
    &&& e.consistent()
    &&& forall|p: Seq<char>| #[trigger] e.content_ids.contains_key(p) ==> e.content_ids[p].len() == 16
    &&& forall|p: Seq<char>| #[trigger]
        e.versions.contains_key(p) ==> e.versions[p].wf() && family_of(e.versions[p]) == family
            && e.versions[p].stamp.mtime == whole_seconds(e.versions[p].modified->0)
}

proof fn lemma_version_keys()
    ensures
        "before_epoch"@ != "seconds"@,
        "before_epoch"@ != "nanos"@,
        "seconds"@ != "nanos"@,
        "device"@ != "inode"@,
        "device"@ != "change_seconds"@,
        "device"@ != "change_nanos"@,
        "inode"@ != "change_seconds"@,
        "inode"@ != "change_nanos"@,
        "change_seconds"@ != "change_nanos"@,
{
    reveal_strlit("before_epoch");
    reveal_strlit("seconds");
    reveal_strlit("nanos");
    reveal_strlit("device");
    reveal_strlit("inode");
    reveal_strlit("change_seconds");
    reveal_strlit("change_nanos");
    assert("before_epoch"@.len() == 12 && "change_nanos"@.len() == 12);
    assert("change_seconds"@.len() == 14);
    assert("seconds"@.len() == 7 && "nanos"@.len() == 5 && "device"@.len() == 6);
    assert("inode"@.len() == 5);
}

proof fn lemma_persisted_keys()
    ensures
        "schema"@ != "platform"@,
        "schema"@ != "size"@,
        "schema"@ != "modified"@,
        "schema"@ != "created"@,
        "schema"@ != "unix"@,
        "platform"@ != "size"@,
        "platform"@ != "modified"@,
        "platform"@ != "created"@,
        "platform"@ != "unix"@,
        "size"@ != "modified"@,
        "size"@ != "created"@,
        "size"@ != "unix"@,
        "modified"@ != "created"@,
        "modified"@ != "unix"@,
        "created"@ != "unix"@,
{
    reveal_strlit("schema");
    reveal_strlit("platform");
    reveal_strlit("size");
    reveal_strlit("modified");
    reveal_strlit("created");
    reveal_strlit("unix");
    assert("schema"@.len() == 6 && "platform"@.len() == 8 && "size"@.len() == 4);
    assert("modified"@.len() == 8 && "created"@.len() == 7 && "unix"@.len() == 4);
    assert("platform"@[0] == 'p' && "modified"@[0] == 'm');
    assert("size"@[0] == 's' && "unix"@[0] == 'u');
}

proof fn lemma_time_tree(t: VersionTime)
    ensures
        parsed_time(time_tree(t)) == Some(t),
        parsed_optional_time(time_tree(t)) == Some(Some(t)),
{
    lemma_version_keys();
    let tree = time_tree(t);
    let keys = seq!["before_epoch"@, "seconds"@, "nanos"@];
    assert forall|k: Seq<char>| #[trigger] tree->Object_0.contains_key(k) implies keys.contains(
        k,
    ) by {
        assert(keys[0] == "before_epoch"@ && keys[1] == "seconds"@ && keys[2] == "nanos"@);
    }
}

proof fn lemma_signed(n: i64)
    ensures
        JsonTree::signed(n).as_signed() == Some(n),
{
}

proof fn lemma_unix_tree(u: UnixVersion)
    ensures
        parsed_unix(unix_tree(u)) == Some(u),
{
    lemma_version_keys();
    lemma_signed(u.change_seconds);
    lemma_signed(u.change_nanos);
    let tree = unix_tree(u);
    let keys = seq!["device"@, "inode"@, "change_seconds"@, "change_nanos"@];
    assert forall|k: Seq<char>| #[trigger] tree->Object_0.contains_key(k) implies keys.contains(
        k,
    ) by {
        assert(keys[0] == "device"@ && keys[1] == "inode"@ && keys[2] == "change_seconds"@
            && keys[3] == "change_nanos"@);
    }
}

proof fn lemma_persisted_tree(p: PersistedView)
    ensures
        parsed_persisted(persisted_tree(p)) == Some(p),
{
    lemma_persisted_keys();
    lemma_time_tree(p.modified);
    if let Some(t) = p.created {
        lemma_time_tree(t);
    }
    if let Some(u) = p.unix {
        lemma_unix_tree(u);
    }
    let tree = persisted_tree(p);
    let keys = persisted_keys();
    assert forall|k: Seq<char>| #[trigger] tree->Object_0.contains_key(k) implies keys.contains(
        k,
    ) by {
        assert(keys[0] == "schema"@ && keys[1] == "platform"@ && keys[2] == "size"@ && keys[3]
            == "modified"@ && keys[4] == "created"@ && keys[5] == "unix"@);
    }
}

/// The identity of a stored entry, where it is well formed.
pub open spec fn entry_id(c: Option<JsonTree>) -> Option<Seq<u8>> {
    match c {
        Some(JsonTree::Text(text)) => if is_id_text(text) {
            Some(choose|id: Seq<u8>| id.len() == 16 && #[trigger] hex_text(id) == text)
        } else {
            None
        },
        _ => None,
    }
}

/// The version of a stored entry, where it is well formed and fits its stamp.
pub open spec fn entry_version(
    v: Option<JsonTree>,
    stamp: FileStamp,
    os: Seq<char>,
    family: Family,
) -> Option<FileVersion> {
    match v {
        Some(v) => match parsed_persisted(v) {
            Some(p) => decoded_version(p, stamp, os, family),
            None => None,
        },
        None => None,
    }
}

/// What is read for a path: its stamp, and whatever stands for its identity and
/// its version.
pub struct EvidenceEntry {
    pub mtime: u64,
    pub size: u64,
    pub c: Option<Json>,
    pub v: Option<Json>,
}

/// What an [`EvidenceEntry`] holds.
pub struct EvidenceEntryView {
    pub stamp: FileStamp,
    pub c: Option<JsonTree>,
    pub v: Option<JsonTree>,
}

/// The tree of a value that may be absent.
pub open spec fn json_view(json: Option<Json>) -> Option<JsonTree> {
    match json {
        Some(json) => Some(json@),
        None => None,
    }
}

impl View for EvidenceEntry {
    type V = EvidenceEntryView;

    open spec fn view(&self) -> EvidenceEntryView {
        EvidenceEntryView {
            stamp: FileStamp { mtime: self.mtime, size: self.size },
            c: json_view(self.c),
            v: json_view(self.v),
        }
    }
}

/// What a list of entries holds.
pub open spec fn read_views(entries: Seq<(String, EvidenceEntry)>) -> Seq<
    (Seq<char>, EvidenceEntryView),
> {
    entries.map_values(|e: (String, EvidenceEntry)| (e.0@, e.1@))
}

/// The evidence that entries stand for. Identities and versions that are
/// malformed or do not fit cost only themselves.
pub open spec fn evidence_of(
    entries: Seq<(Seq<char>, EvidenceEntryView)>,
    os: Seq<char>,
    family: Family,
) -> EvidenceView
    decreases entries.len(),
{
    if entries.len() == 0 {
        EvidenceView { stamps: Map::empty(), content_ids: Map::empty(), versions: Map::empty() }
    } else {
        let (path, entry) = entries.last();
        evidence_of(entries.drop_last(), os, family).with_path(
            path,
            entry.stamp,
            entry_id(entry.c),
            entry_version(entry.v, entry.stamp, os, family),
        )
    }
}

fn read_id(c: &Option<Json>) -> (r: Option<ContentId>)
    ensures
        option_id(r) == entry_id(json_view(*c)),
{
    let text = match c {
        Some(json) => json.as_str()?,
        None => {
            return None;
        },
    };
    let id = ContentId::from_hex(text);
    proof {
        if let Some(i) = id {
            i.lemma_len();
            assert(is_id_text(text@));
            let chosen = choose|b: Seq<u8>| b.len() == 16 && #[trigger] hex_text(b) == text@;
            law_hex_text_is_read_back(chosen, i@);
        }
    }
    id
}

fn read_version(v: &Option<Json>, stamp: FileStamp, platform: &Platform) -> (r: Option<FileVersion>)
    ensures
        r == entry_version(json_view(*v), stamp, platform.os@, platform.family),
        r matches Some(v) ==> v.wf(),
{
    match v {
        Some(json) => match PersistedVersion::from_json(json) {
            Some(p) => p.decode(stamp, platform),
            None => None,
        },
        None => None,
    }
}

/// Reads stored evidence; there is none where nothing is stored.
pub fn read_file_evidence(stored: Option<&Vec<(String, EvidenceEntry)>>, platform: &Platform) -> (r:
    FileEvidence)
    ensures
        r.wf(),
        r@ == (match stored {
            Some(entries) => evidence_of(read_views(entries@), platform.os@, platform.family),
            None => evidence_of(Seq::empty(), platform.os@, platform.family),
        }),
{
    let mut out = FileEvidence::default();
    let entries = match stored {
        Some(entries) => entries,
        None => {
            return out;
        },
    };
    let ghost all = read_views(entries@);
    let mut i: usize = 0;
    assert(all.take(0) =~= Seq::<(Seq<char>, EvidenceEntryView)>::empty());
    while i < entries.len()
        invariant
            i <= entries@.len(),
            all == read_views(entries@),
            out.wf(),
            out@ == evidence_of(all.take(i as int), platform.os@, platform.family),
        decreases entries@.len() - i,
    {
        let entry = &entries[i].1;
        let stamp = FileStamp { mtime: entry.mtime, size: entry.size };
        proof {
            assert(all.take(i + 1).drop_last() =~= all.take(i as int));
            assert(all.take(i + 1).last() == (entries@[i as int].0@, entry@));
        }
        let id = read_id(&entry.c);
        let version = read_version(&entry.v, stamp, platform);
        out.insert_verified(owned(entries[i].0.as_str()), stamp, id, version);
        i += 1;
    }
    assert(all.take(all.len() as int) =~= all);
    out
}

/// What is stored for a path: its stamp, and beside it its identity and its
/// version, where there are any.
pub struct StoredEntry {
    pub mtime: u64,
    pub size: u64,
    pub c: Option<String>,
    pub v: Option<PersistedVersion>,
}

/// What a [`StoredEntry`] holds.
pub struct StoredEntryView {
    pub stamp: FileStamp,
    pub c: Option<Seq<char>>,
    pub v: Option<PersistedView>,
}

impl View for StoredEntry {
    type V = StoredEntryView;

    open spec fn view(&self) -> StoredEntryView {
        StoredEntryView {
            stamp: FileStamp { mtime: self.mtime, size: self.size },
            c: option_text(self.c),
            v: option_persisted(self.v),
        }
    }
}

/// What is stored for a path.
pub open spec fn stored_entry(e: EvidenceView, path: Seq<char>, os: Seq<char>) -> StoredEntryView {
    StoredEntryView {
        stamp: e.stamps[path],
        c: match stored_id(e, path) {
            Some(id) => Some(hex_text(id)),
            None => None,
        },
        v: stored_version(e, path, os),
    }
}

/// What is stored: an entry for each path that has a stamp. Evidence for a path
/// without one, and versions that may not be relied on, are left out.
pub open spec fn stored_entries(e: EvidenceView, paths: Seq<Seq<char>>, os: Seq<char>) -> Seq<
    (Seq<char>, StoredEntryView),
> {
    paths.map_values(|p: Seq<char>| (p, stored_entry(e, p, os)))
}

/// What a list of stored entries holds.
pub open spec fn stored_views(entries: Seq<(String, StoredEntry)>) -> Seq<
    (Seq<char>, StoredEntryView),
> {
    entries.map_values(|e: (String, StoredEntry)| (e.0@, e.1@))
}

/// What is stored of evidence, in the order of the paths.
pub fn write_file_evidence(evidence: &FileEvidence, os: &str) -> (r: Vec<(String, StoredEntry)>)
    requires
        evidence.wf(),
    ensures
        stored_views(r@) == stored_entries(evidence@, evidence.stamps.keys(), os@),
{
    let mut out: Vec<(String, StoredEntry)> = Vec::new();
    let ghost keys = evidence.stamps.keys();
    let ghost f = |p: Seq<char>| (p, stored_entry(evidence@, p, os@));
    let total: usize = evidence.stamps.len();
    let mut i: usize = 0;
    assert(stored_views(out@) =~= keys.take(0).map_values(f));
    while i < total
        invariant
            i <= total,
            evidence.wf(),
            keys == evidence.stamps.keys(),
            total == keys.len(),
            f == (|p: Seq<char>| (p, stored_entry(evidence@, p, os@))),
            stored_views(out@) == keys.take(i as int).map_values(f),
        decreases total - i,
    {
        let path = evidence.stamps.key_at(i);
        let stamp = evidence.stamps.value_at(i);
        let c = match evidence.content_id(path) {
            Some(id) => Some(id.to_hex()),
            None => None,
        };
        let v = match evidence.version(path) {
            Some(version) => version.persisted(os),
            None => None,
        };
        let entry = StoredEntry { mtime: stamp.mtime, size: stamp.size, c, v };
        let key = owned(path);
        let ghost before = stored_views(out@);
        proof {
            assert(entry@ == stored_entry(evidence@, keys[i as int], os@));
        }
        out.push((key, entry));
        proof {
            assert(stored_views(out@) =~= before.push((key@, entry@)));
            assert(keys.take(i + 1).map_values(f) =~= keys.take(i as int).map_values(f).push(
                f(keys[i as int]),
            ));
        }
        i += 1;
    }
    assert(keys.take(total as int) =~= keys);
    out
}

/// A stored entry as it is read again: the identity as a text, and the version
/// as data.
pub open spec fn read_again(stored: StoredEntryView) -> EvidenceEntryView {
    EvidenceEntryView {
        stamp: stored.stamp,
        c: match stored.c {
            Some(text) => Some(JsonTree::Text(text)),
            None => None,
        },
        v: match stored.v {
            Some(p) => Some(persisted_tree(p)),
            None => None,
        },
    }
}

/// Stored entries as they are read again.
pub open spec fn all_read_again(stored: Seq<(Seq<char>, StoredEntryView)>) -> Seq<
    (Seq<char>, EvidenceEntryView),
> {
    stored.map_values(|e: (Seq<char>, StoredEntryView)| (e.0, read_again(e.1)))
}

proof fn lemma_entry_read_again(e: EvidenceView, path: Seq<char>, os: Seq<char>, family: Family)
    requires
        is_storable(e, family),
        e.stamps.contains_key(path),
    ensures
        ({
            let entry = read_again(stored_entry(e, path, os));
            &&& entry.stamp == e.stamps[path]
            &&& entry_id(entry.c) == stored_id(e, path)
            &&& entry_version(entry.v, entry.stamp, os, family) == (if e.versions.contains_key(
                path,
            ) {
                Some(e.versions[path])
            } else {
                None
            })
        }),
{
    if let Some(b) = stored_id(e, path) {
        let text = hex_text(b);
        assert(is_id_text(text));
        let chosen = choose|c: Seq<u8>| c.len() == 16 && #[trigger] hex_text(c) == text;
        law_hex_text_is_read_back(chosen, b);
    }
    if e.versions.contains_key(path) {
        assert(e.usable_version(path) is Some);
        law_stored_version_is_read_back(e.versions[path], os);
        lemma_persisted_tree(stored_version(e, path, os)->0);
    }
}

proof fn lemma_entries_read_again(
    e: EvidenceView,
    paths: Seq<Seq<char>>,
    os: Seq<char>,
    family: Family,
)
    requires
        is_storable(e, family),
        forall|i: int| 0 <= i < paths.len() ==> e.stamps.contains_key(#[trigger] paths[i]),
    ensures
        ({
            let read = evidence_of(all_read_again(stored_entries(e, paths, os)), os, family);
            &&& forall|p: Seq<char>| #[trigger]
                read.stamps.contains_key(p) <==> paths.contains(p)
            &&& forall|p: Seq<char>| #[trigger]
                read.stamps.contains_key(p) ==> read.stamps[p] == e.stamps[p]
            &&& forall|p: Seq<char>| #[trigger]
                read.content_ids.contains_key(p) <==> paths.contains(p)
                    && e.content_ids.contains_key(p)
            &&& forall|p: Seq<char>| #[trigger]
                read.content_ids.contains_key(p) ==> read.content_ids[p] == e.content_ids[p]
            &&& forall|p: Seq<char>| #[trigger]
                read.versions.contains_key(p) <==> paths.contains(p) && e.versions.contains_key(p)
            &&& forall|p: Seq<char>| #[trigger]
                read.versions.contains_key(p) ==> read.versions[p] == e.versions[p]
        }),
    decreases paths.len(),
{
    let all = all_read_again(stored_entries(e, paths, os));
    if paths.len() > 0 {
        let front = paths.drop_last();
        let path = paths.last();
        assert forall|i: int| 0 <= i < front.len() implies e.stamps.contains_key(
            #[trigger] front[i],
        ) by {
            assert(front[i] == paths[i]);
        }
        lemma_entries_read_again(e, front, os, family);
        assert(all.drop_last() =~= all_read_again(stored_entries(e, front, os)));
        assert(all.last() == (path, read_again(stored_entry(e, path, os))));
        assert(e.stamps.contains_key(paths[paths.len() - 1]));
        lemma_entry_read_again(e, path, os, family);
        lemma_last_contains(paths);
        if e.versions.contains_key(path) {
            assert(e.usable_version(path) is Some);
        }
        let last = all.last().1;
        assert(evidence_of(all, os, family) == evidence_of(all.drop_last(), os, family).with_path(
            path,
            last.stamp,
            entry_id(last.c),
            entry_version(last.v, last.stamp, os, family),
        ));
    } else {
        assert(all =~= Seq::empty());
    }
}

/// Evidence that is stored and read again on the same platform is what it was.
pub proof fn law_stored_evidence_is_read_back(
    e: EvidenceView,
    paths: Seq<Seq<char>>,
    os: Seq<char>,
    family: Family,
)
    requires
        is_storable(e, family),
        forall|p: Seq<char>| #[trigger] e.stamps.contains_key(p) <==> paths.contains(p),
    ensures
        evidence_of(all_read_again(stored_entries(e, paths, os)), os, family) == e,
{
    assert forall|i: int| 0 <= i < paths.len() implies e.stamps.contains_key(#[trigger] paths[i]) by {
        assert(paths.contains(paths[i]));
    }
    lemma_entries_read_again(e, paths, os, family);
    let read = evidence_of(all_read_again(stored_entries(e, paths, os)), os, family);
    assert forall|p: Seq<char>| #[trigger] e.stamps.contains_key(p) <==> read.stamps.contains_key(
        p,
    ) by {
        assert(e.stamps.contains_key(p) <==> paths.contains(p));
    }
    assert(read.stamps =~= e.stamps);
    assert forall|p: Seq<char>| #[trigger]
        e.content_ids.contains_key(p) <==> read.content_ids.contains_key(p) by {
        assert(e.stamps.contains_key(p) <==> paths.contains(p));
    }
    assert(read.content_ids =~= e.content_ids);
    assert forall|p: Seq<char>| #[trigger]
        e.versions.contains_key(p) <==> read.versions.contains_key(p) by {
        assert(e.stamps.contains_key(p) <==> paths.contains(p));
        if e.versions.contains_key(p) {
            assert(e.usable_version(p) is Some);
        }
    }
    assert(read.versions =~= e.versions);
}

} // verus!
