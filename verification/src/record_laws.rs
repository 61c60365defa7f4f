//! What holds of what is recorded: versions and evidence, stamps, and snapshots
//! as they are made, named, stored and listed.
use crate::bytes::blake3_hash;
use crate::evidence::{decoded_version, persisted_view, EvidenceView, PersistedView};
use crate::evidence_file::{evidence_of, stored_entry, EvidenceEntryView};
use crate::filestamps::{collected, stamp_of, FileMetadata};
use crate::index_meta::{read_meta, StoredMetaView};
use crate::json::JsonTree;
use crate::lists::lemma_filter_map_contains;
use crate::meta::{
    decoded_time, hex_text, version_time, Family, FileStamp, FileTime, FileVersion, PlatformVersion,
    UnixVersion, VersionTime,
};
use crate::order::law_sorted_indices_are_in_stable_order;
use crate::snapshot::{label_result, EntryView, SnapshotView};
use crate::snapshot_file::{parse_snapshot, snapshot_bytes};
use crate::snapshot_store::{
    clash_of, create_result, created_answer, delete_id_result, deleted_answer, hashed_files, id_for, list_answer, listed_file,
    listed_in_order, observed_files, stem_of, Listed, Newest, ObservedFile, StoredFile,
};
use crate::text::{decimal, replaced, trimmed};
use vstd::bytes::*;
use vstd::prelude::*;
use vstd::utf8::encode_utf8;

verus! {

proof fn lemma_keys()
    ensures
        "snapshot"@ != "elapsed_ms"@,
        "snapshot"@ != "note"@,
        "snapshot"@ != "id"@,
        "snapshot"@ != "error"@,
        "snapshot"@ != "snapshots"@,
        "snapshot"@ != "label"@,
        "snapshot"@ != "hash"@,
        "snapshot"@ != "no_ignore"@,
        "snapshot"@ != "overwrite"@,
        "elapsed_ms"@ != "note"@,
        "elapsed_ms"@ != "id"@,
        "elapsed_ms"@ != "error"@,
        "elapsed_ms"@ != "snapshots"@,
        "elapsed_ms"@ != "label"@,
        "elapsed_ms"@ != "hash"@,
        "elapsed_ms"@ != "no_ignore"@,
        "elapsed_ms"@ != "overwrite"@,
        "note"@ != "id"@,
        "note"@ != "error"@,
        "note"@ != "snapshots"@,
        "note"@ != "label"@,
        "note"@ != "hash"@,
        "note"@ != "no_ignore"@,
        "note"@ != "overwrite"@,
        "id"@ != "error"@,
        "id"@ != "snapshots"@,
        "id"@ != "label"@,
        "id"@ != "hash"@,
        "id"@ != "no_ignore"@,
        "id"@ != "overwrite"@,
        "error"@ != "snapshots"@,
        "error"@ != "label"@,
        "error"@ != "hash"@,
        "error"@ != "no_ignore"@,
        "error"@ != "overwrite"@,
        "snapshots"@ != "label"@,
        "snapshots"@ != "hash"@,
        "snapshots"@ != "no_ignore"@,
        "snapshots"@ != "overwrite"@,
        "label"@ != "hash"@,
        "label"@ != "no_ignore"@,
        "label"@ != "overwrite"@,
        "hash"@ != "no_ignore"@,
        "hash"@ != "overwrite"@,
        "no_ignore"@ != "overwrite"@,
{
    reveal_strlit("snapshot");
    reveal_strlit("elapsed_ms");
    reveal_strlit("note");
    reveal_strlit("id");
    reveal_strlit("error");
    reveal_strlit("snapshots");
    reveal_strlit("label");
    reveal_strlit("hash");
    reveal_strlit("no_ignore");
    reveal_strlit("overwrite");
    assert("snapshot"@.len() == 8);
    assert("elapsed_ms"@.len() == 10);
    assert("note"@.len() == 4);
    assert("id"@.len() == 2);
    assert("error"@.len() == 5);
    assert("snapshots"@.len() == 9);
    assert("label"@.len() == 5);
    assert("hash"@.len() == 4);
    assert("no_ignore"@.len() == 9);
    assert("overwrite"@.len() == 9);
    assert("note"@[0] != "hash"@[0]);
    assert("error"@[0] != "label"@[0]);
    assert("snapshots"@[0] != "no_ignore"@[0]);
    assert("snapshots"@[0] != "overwrite"@[0]);
    assert("no_ignore"@[0] != "overwrite"@[0]);
}

/// A version may be relied on where its modification time is known, and where
/// the platform tells more: on Unix a change time that is one, on Windows the
/// time of creation, elsewhere nothing.
pub proof fn law_versions_are_trusted_by_what_the_platform_tells(v: FileVersion, unix: UnixVersion)
    ensures
        v.modified is None ==> !v.trusted(),
        v.platform == PlatformVersion::Unix(unix) && v.modified is Some ==> (v.trusted() <==> 0
            <= unix.change_nanos < 1_000_000_000),
        v.platform is Windows && v.modified is Some ==> (v.trusted() <==> v.created is Some),
        v.platform is Other ==> !v.trusted(),
{
}

/// A version is looked up only where it is trusted and has the stamp of its
/// path.
pub proof fn law_lookups_give_versions_that_fit(e: EvidenceView, path: Seq<char>, v: FileVersion)
    ensures
        e.usable_version(path) == Some(v) <==> e.versions.contains_key(path) && e.versions[path] == v
            && v.trusted() && e.stamps.contains_key(path) && e.stamps[path] == v.stamp,
{
}

/// What is recorded for a path is what is then known of it, and what is known of
/// others stays. A version that is missing, not trusted or of another stamp
/// clears the one before.
pub proof fn law_recording_a_path_changes_that_path(
    e: EvidenceView,
    path: Seq<char>,
    stamp: FileStamp,
    id: Option<Seq<u8>>,
    version: Option<FileVersion>,
    other: Seq<char>,
)
    ensures
        ({
            let after = e.with_path(path, stamp, id, version);
            let gone = e.without_path(path);
            &&& after.stamps.contains_key(path) && after.stamps[path] == stamp
            &&& id matches Some(i) ==> after.content_ids.contains_key(path)
                && after.content_ids[path] == i
            &&& id is None ==> !after.content_ids.contains_key(path)
            &&& version is Some && version->0.trusted() && version->0.stamp == stamp
                ==> after.usable_version(path) == version
            &&& version is None || !version->0.trusted() || version->0.stamp != stamp
                ==> !after.versions.contains_key(path)
            &&& !gone.stamps.contains_key(path) && !gone.content_ids.contains_key(path)
                && !gone.versions.contains_key(path)
            &&& other != path ==> same_at(e, after, other) && same_at(e, gone, other)
        }),
{
}

/// Whether two pieces of evidence say the same of a path.
pub open spec fn same_at(a: EvidenceView, b: EvidenceView, path: Seq<char>) -> bool {
    &&& a.stamps.contains_key(path) == b.stamps.contains_key(path)
    &&& a.stamps.contains_key(path) ==> a.stamps[path] == b.stamps[path]
    &&& a.content_ids.contains_key(path) == b.content_ids.contains_key(path)
    &&& a.content_ids.contains_key(path) ==> a.content_ids[path] == b.content_ids[path]
    &&& a.versions.contains_key(path) == b.versions.contains_key(path)
    &&& a.versions.contains_key(path) ==> a.versions[path] == b.versions[path]
}

/// What is kept of the stamps is kept of the rest: an identity where its stamp
/// is, a version where its own stamp is.
pub proof fn law_keeping_stamps_keeps_what_fits(
    e: EvidenceView,
    kept: Map<Seq<char>, FileStamp>,
    path: Seq<char>,
)
    ensures
        ({
            let after = e.with_stamps(kept);
            &&& after.stamps == kept
            &&& after.content_ids.contains_key(path) <==> e.content_ids.contains_key(path)
                && kept.contains_key(path)
            &&& after.content_ids.contains_key(path) ==> after.content_ids[path]
                == e.content_ids[path]
            &&& after.versions.contains_key(path) <==> e.versions.contains_key(path)
                && kept.contains_key(path) && kept[path] == e.versions[path].stamp
            &&& after.versions.contains_key(path) ==> after.versions[path] == e.versions[path]
        }),
{
}

/// A stored version is taken only where it is of this schema and platform, has
/// the size of its stamp and its whole seconds, tells what this platform tells,
/// and may be relied on; it then has the stored times.
pub proof fn law_only_stored_versions_that_fit_are_taken(
    p: PersistedView,
    stamp: FileStamp,
    os: Seq<char>,
    family: Family,
)
    ensures
        decoded_version(p, stamp, os, family) matches Some(v) ==> {
            &&& p.schema == 1 && p.platform == os && p.size == stamp.size
            &&& v.stamp == stamp
            &&& v.modified == decoded_time(p.modified)
            &&& v.modified matches Some(t) && stamp.mtime == (if t.seconds >= 0 {
                t.seconds as u64
            } else {
                0
            })
            &&& p.created is Some ==> v.created == decoded_time(p.created->0) && v.created is Some
            &&& p.created is None ==> v.created is None
            &&& family == Family::Unix ==> p.unix is Some && v.platform == PlatformVersion::Unix(
                p.unix->0,
            )
            &&& family != Family::Unix ==> p.unix is None
            &&& v.trusted()
        },
{
}

/// A time is stored as its distance from the epoch, to the nanosecond, and read
/// back as it was.
pub proof fn law_times_are_distances_from_the_epoch(time: FileTime)
    requires
        time.nanos < 1_000_000_000,
    ensures
        ({
            let v = version_time(time);
            let distance = v.seconds * 1_000_000_000 + v.nanos;
            &&& v.nanos < 1_000_000_000
            &&& v.before_epoch <==> time.seconds < 0
            &&& time.seconds >= 0 ==> distance == time.seconds * 1_000_000_000 + time.nanos
            &&& time.seconds < 0 ==> distance == -(time.seconds * 1_000_000_000 + time.nanos)
            &&& decoded_time(v) == Some(time)
        }),
{
    let v = version_time(time);
    assert(v.total() == time.total());
    assert(time.total() / 1_000_000_000 == time.seconds);
    assert(time.total() % 1_000_000_000 == time.nanos);
}

/// What is stored of a version is everything it says, under the schema and the
/// platform, if it may be relied on.
pub proof fn law_versions_are_stored_whole(v: FileVersion, os: Seq<char>)
    ensures
        persisted_view(v, os) is Some <==> v.trusted(),
        persisted_view(v, os) matches Some(p) ==> {
            &&& p.schema == 1 && p.platform == os && p.size == v.stamp.size
            &&& p.modified == version_time(v.modified->0)
            &&& p.created is Some <==> v.created is Some
            &&& p.created is Some ==> p.created->0 == version_time(v.created->0)
            &&& v.platform matches PlatformVersion::Unix(u) ==> p.unix == Some(u)
            &&& !(v.platform is Unix) ==> p.unix is None
        },
{
}

proof fn lemma_u64_bytes(a: u64, b: u64)
    requires
        spec_u64_to_le_bytes(a) == spec_u64_to_le_bytes(b),
    ensures
        a == b,
{
    lemma_auto_spec_u64_to_from_le_bytes();
    assert(spec_u64_to_le_bytes(a).len() == 8 && spec_u64_to_le_bytes(b).len() == 8);
    assert(spec_u64_from_le_bytes(spec_u64_to_le_bytes(a)) == a);
    assert(spec_u64_from_le_bytes(spec_u64_to_le_bytes(b)) == b);
}

proof fn lemma_u32_bytes(a: u32, b: u32)
    requires
        spec_u32_to_le_bytes(a) == spec_u32_to_le_bytes(b),
    ensures
        a == b,
{
    lemma_auto_spec_u32_to_from_le_bytes();
    assert(spec_u32_to_le_bytes(a).len() == 4 && spec_u32_to_le_bytes(b).len() == 4);
    assert(spec_u32_from_le_bytes(spec_u32_to_le_bytes(a)) == a);
    assert(spec_u32_from_le_bytes(spec_u32_to_le_bytes(b)) == b);
}

/// Two texts of bytes that start alike and are equal in a whole are equal in
/// their parts.
proof fn lemma_split(a: Seq<u8>, x: Seq<u8>, b: Seq<u8>, y: Seq<u8>)
    requires
        a + x == b + y,
        a.len() == b.len(),
    ensures
        a == b,
        x == y,
{
    assert((a + x).take(a.len() as int) =~= a);
    assert((b + y).take(b.len() as int) =~= b);
    assert((a + x).skip(a.len() as int) =~= x);
    assert((b + y).skip(b.len() as int) =~= y);
}

proof fn lemma_time_split(a: Option<FileTime>, x: Seq<u8>, b: Option<FileTime>, y: Seq<u8>)
    requires
        crate::meta::time_bytes(a) + x == crate::meta::time_bytes(b) + y,
        a matches Some(t) ==> t.nanos < 1_000_000_000,
        b matches Some(t) ==> t.nanos < 1_000_000_000,
    ensures
        a == b,
        x == y,
{
    let p = crate::meta::time_bytes(a);
    let q = crate::meta::time_bytes(b);
    assert((p + x)[0] == p[0]);
    assert((q + y)[0] == q[0]);
    lemma_auto_spec_u64_to_from_le_bytes();
    lemma_auto_spec_u32_to_from_le_bytes();
    assert(a is Some <==> b is Some);
    lemma_split(p, x, q, y);
    if a is Some {
        let v = version_time(a->0);
        let w = version_time(b->0);
        let hv = seq![1u8, if v.before_epoch { 1u8 } else { 0u8 }];
        let hw = seq![1u8, if w.before_epoch { 1u8 } else { 0u8 }];
        let sv = spec_u64_to_le_bytes(v.seconds);
        let sw = spec_u64_to_le_bytes(w.seconds);
        lemma_split(hv + sv, spec_u32_to_le_bytes(v.nanos), hw + sw, spec_u32_to_le_bytes(w.nanos));
        lemma_split(hv, sv, hw, sw);
        assert(hv[1] == hw[1]);
        lemma_u64_bytes(v.seconds, w.seconds);
        lemma_u32_bytes(v.nanos, w.nanos);
        law_times_are_distances_from_the_epoch(a->0);
        law_times_are_distances_from_the_epoch(b->0);
    }
}

/// What the digest of a version is taken of tells every field apart: no two
/// versions of a platform give the same bytes.
pub proof fn law_digests_see_every_field(a: FileVersion, b: FileVersion)
    requires
        a.wf(),
        b.wf(),
        a.platform is Unix <==> b.platform is Unix,
        a.platform is Windows <==> b.platform is Windows,
        a.evidence_bytes() == b.evidence_bytes(),
    ensures
        a == b,
{
    lemma_auto_spec_u64_to_from_le_bytes();
    let sa = spec_u64_to_le_bytes(a.stamp.size);
    let sb = spec_u64_to_le_bytes(b.stamp.size);
    let ma = spec_u64_to_le_bytes(a.stamp.mtime);
    let mb = spec_u64_to_le_bytes(b.stamp.mtime);
    let ta = crate::meta::time_bytes(a.modified);
    let tb = crate::meta::time_bytes(b.modified);
    let ca = crate::meta::time_bytes(a.created);
    let cb = crate::meta::time_bytes(b.created);
    let pa = crate::meta::platform_bytes(a.platform);
    let pb = crate::meta::platform_bytes(b.platform);
    assert(sa + ma + ta + ca + pa =~= sa + (ma + (ta + (ca + pa))));
    assert(sb + mb + tb + cb + pb =~= sb + (mb + (tb + (cb + pb))));
    lemma_split(sa, ma + (ta + (ca + pa)), sb, mb + (tb + (cb + pb)));
    lemma_split(ma, ta + (ca + pa), mb, tb + (cb + pb));
    lemma_u64_bytes(a.stamp.size, b.stamp.size);
    lemma_u64_bytes(a.stamp.mtime, b.stamp.mtime);
    lemma_time_split(a.modified, ca + pa, b.modified, cb + pb);
    lemma_time_split(a.created, pa, b.created, pb);
    if let PlatformVersion::Unix(u) = a.platform {
        let w = b.platform->Unix_0;
        lemma_unix_bytes(u, w);
    }
}

proof fn lemma_unix_bytes(u: UnixVersion, w: UnixVersion)
    requires
        crate::meta::platform_bytes(PlatformVersion::Unix(u)) == crate::meta::platform_bytes(
            PlatformVersion::Unix(w),
        ),
    ensures
        u == w,
{
    lemma_auto_spec_u64_to_from_le_bytes();
    let a = spec_u64_to_le_bytes(u.device);
    let b = spec_u64_to_le_bytes(u.inode);
    let c = spec_u64_to_le_bytes(u.change_seconds as u64);
    let d = spec_u64_to_le_bytes(u.change_nanos as u64);
    let e = spec_u64_to_le_bytes(w.device);
    let f = spec_u64_to_le_bytes(w.inode);
    let g = spec_u64_to_le_bytes(w.change_seconds as u64);
    let h = spec_u64_to_le_bytes(w.change_nanos as u64);
    assert(a + b + c + d == e + f + g + h);
    lemma_split(a + b + c, d, e + f + g, h);
    lemma_split(a + b, c, e + f, g);
    lemma_split(a, b, e, f);
    lemma_u64_bytes(u.device, w.device);
    lemma_u64_bytes(u.inode, w.inode);
    lemma_u64_bytes(u.change_seconds as u64, w.change_seconds as u64);
    lemma_u64_bytes(u.change_nanos as u64, w.change_nanos as u64);
    let x = u.change_seconds;
    let y = w.change_seconds;
    assert(x as u64 == y as u64 ==> x == y) by (bit_vector);
    let p = u.change_nanos;
    let q = w.change_nanos;
    assert(p as u64 == q as u64 ==> p == q) by (bit_vector);
}

/// The character of a hexadecimal digit.
pub open spec fn hex_numeral(d: int) -> char {
    if d < 10 {
        (48 + d) as char
    } else {
        (87 + d) as char
    }
}

/// An identity is written as two hexadecimal digits for each byte, the higher
/// first, in lower case.
pub proof fn law_identities_are_written_in_hexadecimal(bytes: Seq<u8>, i: int)
    requires
        0 <= i < bytes.len(),
    ensures
        hex_text(bytes).len() == 2 * bytes.len(),
        hex_text(bytes)[2 * i] == hex_numeral(bytes[i] as int / 16),
        hex_text(bytes)[2 * i + 1] == hex_numeral(bytes[i] as int % 16),
{
    let hi = bytes[i] as int / 16;
    let lo = bytes[i] as int % 16;
    assert((2 * i) / 2 == i && (2 * i + 1) / 2 == i && (2 * i) % 2 == 0 && (2 * i + 1) % 2 == 1);
    lemma_hex_char(hi);
    lemma_hex_char(lo);
}

proof fn lemma_hex_char(d: int)
    requires
        0 <= d < 16,
    ensures
        crate::meta::hex_char(d) == hex_numeral(d),
{
    assert(d == 0 || d == 1 || d == 2 || d == 3 || d == 4 || d == 5 || d == 6 || d == 7 || d == 8
        || d == 9 || d == 10 || d == 11 || d == 12 || d == 13 || d == 14 || d == 15);
}

/// A stamp is the size and the whole seconds since the epoch, and zero where the
/// time is not known or before it.
pub proof fn law_stamps_are_sizes_and_whole_seconds(m: FileMetadata)
    ensures
        stamp_of(m).size == m.size,
        m.modified is None ==> stamp_of(m).mtime == 0,
        m.modified matches Some(t) ==> (t.seconds >= 0 ==> stamp_of(m).mtime == t.seconds) && (
        t.seconds < 0 ==> stamp_of(m).mtime == 0),
{
}

/// Stamps are collected of every file whose metadata is there, the last of a
/// path counting.
pub proof fn law_stamps_are_collected_of_what_is_there(
    found: Seq<(String, Option<FileMetadata>)>,
    path: String,
    m: FileMetadata,
)
    ensures
        collected(found.push((path, Some(m)))) == collected(found).insert(path@, stamp_of(m)),
        collected(found.push((path, None))) == collected(found),
        collected(Seq::empty()) == Map::<Seq<char>, FileStamp>::empty(),
{
    assert(found.push((path, Some(m))).drop_last() =~= found);
    assert(found.push((path, None)).drop_last() =~= found);
}

/// What is stored for a path is its stamp, its identity in hexadecimal notation
/// where there is one, and its version where that may be relied on.
pub proof fn law_stored_entries_say_what_is_known(e: EvidenceView, path: Seq<char>, os: Seq<char>)
    ensures
        ({
            let s = stored_entry(e, path, os);
            &&& s.stamp == e.stamps[path]
            &&& e.content_ids.contains_key(path) ==> s.c == Some(hex_text(e.content_ids[path]))
            &&& !e.content_ids.contains_key(path) ==> s.c is None
            &&& e.usable_version(path) matches Some(v) ==> s.v == persisted_view(v, os)
            &&& e.usable_version(path) is None ==> s.v is None
        }),
{
}

/// Every entry that is read gives its path its stamp, whatever else is in it;
/// and an identity that is well formed gives its bytes.
pub proof fn law_read_entries_give_their_stamps(
    entries: Seq<(Seq<char>, EvidenceEntryView)>,
    path: Seq<char>,
    entry: EvidenceEntryView,
    os: Seq<char>,
    family: Family,
    id: Seq<u8>,
    other: Seq<char>,
)
    requires
        id.len() == 16,
    ensures
        ({
            let before = evidence_of(entries, os, family);
            let after = evidence_of(entries.push((path, entry)), os, family);
            &&& after.stamps == before.stamps.insert(path, entry.stamp)
            &&& entry.c == Some(JsonTree::Text(hex_text(id))) ==> after.content_ids.contains_key(path)
                && after.content_ids[path] == id
            &&& entry.c is None ==> !after.content_ids.contains_key(path)
            &&& entry.v is None ==> !after.versions.contains_key(path)
            &&& other != path ==> same_at(before, after, other)
        }),
{
    assert(entries.push((path, entry)).drop_last() =~= entries);
    if entry.c == Some(JsonTree::Text(hex_text(id))) {
        assert(crate::evidence_file::is_id_text(hex_text(id)));
        let chosen = choose|b: Seq<u8>| b.len() == 16 && #[trigger] hex_text(b) == hex_text(id);
        crate::meta::law_hex_text_is_read_back(chosen, id);
    }
}

/// Metadata of an index is read as it is stored; where it is silent the index is
/// complete, and proves nothing of hidden files.
pub proof fn law_index_metadata_is_read_as_stored(s: StoredMetaView, unrecorded: JsonTree)
    ensures
        ({
            let m = read_meta(s, unrecorded);
            &&& m.version == s.version && m.num_files == s.num_files && m.num_trigrams
                == s.num_trigrams
            &&& m.created_at == s.created_at && m.updated_at == s.updated_at && m.root_path
                == s.root_path
            &&& s.complete is None ==> m.complete
            &&& s.complete matches Some(b) ==> m.complete == b
            &&& s.hidden_complete is None ==> !m.hidden_complete
            &&& s.hidden_complete matches Some(b) ==> m.hidden_complete == b
            &&& s.visibility matches Some(v) ==> m.visibility == v
            &&& s.visibility is None ==> m.visibility == unrecorded
            &&& m.file_table_id == s.file_table_id
        }),
{
}

/// What a snapshot records of a file that a walk saw: its size and time, the
/// digest of its version where that may be relied on, and no content.
pub proof fn law_snapshots_record_what_a_walk_saw(
    files: Seq<ObservedFile>,
    f: ObservedFile,
)
    ensures
        observed_files(Seq::empty()) == Map::<Seq<char>, EntryView>::empty(),
        ({
            let after = observed_files(files.push(f));
            let path = replaced(f.relative_path@, '\\', '/');
            &&& after == observed_files(files).insert(path, after[path])
            &&& after[path].size == f.size
            &&& after[path].mtime == f.mtime
            &&& after[path].hash is None
            &&& after[path].digest is Some <==> f.version is Some && f.version->0.trusted()
            &&& after[path].digest matches Some(d) ==> d == blake3_hash(
                f.version->0.evidence_bytes(),
            ).take(16)
        }),
{
    assert(files.push(f).drop_last() =~= files);
}

/// Recording content adds the hash of every file that was read, and changes
/// nothing else.
pub proof fn law_recording_content_adds_hashes(
    files: Map<Seq<char>, EntryView>,
    hashes: Map<Seq<char>, Seq<u8>>,
    path: Seq<char>,
)
    ensures
        ({
            let after = hashed_files(files, hashes);
            &&& after.contains_key(path) <==> files.contains_key(path)
            &&& files.contains_key(path) ==> after[path].size == files[path].size
                && after[path].mtime == files[path].mtime && after[path].digest
                == files[path].digest
            &&& files.contains_key(path) && hashes.contains_key(path) ==> after[path].hash == Some(
                hashes[path],
            )
            &&& files.contains_key(path) && !hashes.contains_key(path) ==> after[path].hash is None
        }),
{
}

/// A snapshot is made as asked: with content, without ignore rules and over
/// another only on request, under its label where one is given.
pub proof fn law_snapshots_are_made_as_asked(args: JsonTree)
    ensures
        create_result(args) matches Ok(c) ==> {
            &&& c.with_hashes <==> args.field_bool("hash"@) == Some(true)
            &&& c.no_ignore <==> args.field_bool("no_ignore"@) == Some(true)
            &&& c.overwrite <==> args.field_bool("overwrite"@) == Some(true)
            &&& args.field_text("label"@) is None ==> c.label.len() == 0
            &&& args.field_text("label"@) matches Some(l) ==> c.label == trimmed(l)
        },
        create_result(args) is Err <==> (args.field_text("label"@) matches Some(l) && label_result(
            l,
        ) is Err),
        args.field_text("id"@) is None ==> delete_id_result(args) is Err,
        args.field_text("id"@) matches Some(l) ==> delete_id_result(args) == label_result(l),
{
    lemma_keys();
}

/// A label is up to sixty-four letters, digits, dots, underscores and dashes,
/// and at least one; white space around it does not count.
pub proof fn law_labels_are_plain_names(label: Seq<char>)
    ensures
        ({
            let id = trimmed(label);
            let plain = forall|i: int|
                0 <= i < id.len() ==> {
                    let c = #[trigger] id[i];
                    ('a' <= c <= 'z') || ('A' <= c <= 'Z') || ('0' <= c <= '9') || c == '.' || c
                        == '_' || c == '-'
                };
            let n = encode_utf8(id).len();
            &&& label_result(label) is Ok <==> 1 <= n <= 64 && plain
            &&& label_result(label) matches Ok(r) ==> r == id
        }),
{
    let id = trimmed(label);
    if forall|i: int|
        0 <= i < id.len() ==> {
            let c = #[trigger] id[i];
            ('a' <= c <= 'z') || ('A' <= c <= 'Z') || ('0' <= c <= '9') || c == '.' || c == '_' || c
                == '-'
        } {
        assert forall|i: int| 0 <= i < id.len() implies crate::snapshot::is_label_char(
            #[trigger] id[i],
        ) by {}
    }
    if crate::snapshot::is_label(id) {
        assert forall|i: int| 0 <= i < id.len() implies ({
            let c = #[trigger] id[i];
            ('a' <= c <= 'z') || ('A' <= c <= 'Z') || ('0' <= c <= '9') || c == '.' || c == '_' || c
                == '-'
        }) by {
            assert(crate::snapshot::is_label_char(id[i]));
        }
    }
}

/// A snapshot goes by its label, and without one by the time it was made.
pub proof fn law_snapshots_go_by_their_label(label: Seq<char>, created_at: u64)
    ensures
        label.len() > 0 ==> id_for(label, created_at) == label,
        label.len() == 0 ==> id_for(label, created_at) == "snap-"@ + decimal(created_at as nat),
{
}

/// The file of a snapshot is found by its name, and no other file is taken for
/// one.
pub proof fn law_snapshot_files_are_told_by_their_ending(id: Seq<char>, name: Seq<char>)
    ensures
        id.len() > 0 ==> stem_of(id + ".tgsnap"@) == Some(id),
        stem_of(name) matches Some(i) ==> name == i + ".tgsnap"@,
{
    reveal_strlit(".tgsnap");
    let end = ".tgsnap"@;
    assert((id + end).skip(id.len() as int) =~= end);
    assert((id + end).take(id.len() as int) =~= id);
    if stem_of(name) is Some {
        let n = name.len() - end.len();
        assert(name =~= name.take(n) + name.skip(n));
    }
}

/// The answer to making a snapshot shows it, and says whether content was
/// recorded.
pub proof fn law_making_a_snapshot_is_answered(
    s: SnapshotView,
    now: u64,
    elapsed: crate::clock::Elapsed,
)
    ensures
        ({
            let t = created_answer(s, now, elapsed).structured;
            &&& t.field("snapshot"@) == Some(crate::snapshot::snapshot_tree(s, now))
            &&& t.field_unsigned("elapsed_ms"@) == Some(elapsed.millis())
            &&& t.field_text("note"@) == Some(
                if s.has_hashes {
                    "content hashes recorded: verification and rename detection are available"@
                } else {
                    "metadata only: pass hash=true to enable content verification and rename detection"@
                },
            )
        }),
{
    lemma_keys();
}

/// A stored file is listed as the snapshot that it holds, or as one that cannot
/// be read, with the reason; a file that is no snapshot is not listed.
pub proof fn law_stored_snapshots_are_listed(f: StoredFile, id: Seq<char>, bytes: Vec<u8>, e: String)
    ensures
        stem_of(f.name@) is None ==> listed_file(f) is None,
        stem_of(f.name@) == Some(id) && f.content == Ok::<Vec<u8>, String>(bytes) ==> (
        parse_snapshot(bytes@, id) matches Ok(s) ==> listed_file(f) == Some(Listed::Stored(s))),
        stem_of(f.name@) == Some(id) && f.content == Ok::<Vec<u8>, String>(bytes) ==> (
        parse_snapshot(bytes@, id) matches Err(m) ==> listed_file(f) == Some(
            Listed::Unreadable { id, error: m },
        )),
        stem_of(f.name@) == Some(id) && f.content == Err::<Vec<u8>, String>(e) ==> listed_file(f)
            == Some(Listed::Unreadable { id, error: e@ }),
{
}

/// Snapshots are listed from the newest to the oldest, those that cannot be read
/// last; each stored one once.
pub proof fn law_snapshots_are_listed_from_the_newest(
    files: Seq<StoredFile>,
    now: u64,
    i: int,
    j: int,
    one: Listed,
)
    requires
        files.len() <= usize::MAX,
        0 <= i < j < listed_in_order(files).len(),
    ensures
        ({
            let list = listed_in_order(files);
            &&& list[j] matches Listed::Stored(b) ==> (list[i] matches Listed::Stored(a)
                && a.created_at >= b.created_at)
            &&& list.contains(one) <==> exists|k: int|
                0 <= k < files.len() && listed_file(#[trigger] files[k]) == Some(one)
            &&& list_answer(files, now).structured.field_list("snapshots"@) matches Some(items)
                && items.len() == list.len()
        }),
{
    let f = |f: StoredFile| listed_file(f);
    let all = files.filter_map(f);
    crate::lists::lemma_filter_map_len(files, f);
    let keys = all.map_values(|l: Listed| crate::snapshot_store::listed_key(l));
    law_sorted_indices_are_in_stable_order::<Newest>(keys);
    let order = crate::order::sorted_indices::<Newest>(keys);
    let list = listed_in_order(files);
    assert(crate::order::comes_before::<Newest>(keys, order[i] as int, order[j] as int));
    lemma_filter_map_contains(files, f, one);
    if list.contains(one) {
        let k = choose|k: int| 0 <= k < list.len() && list[k] == one;
        assert(all[order[k] as int] == one);
        assert(all.contains(one));
        let m = choose|m: int| 0 <= m < files.len() && f(#[trigger] files[m]) == Some(one);
        assert(listed_file(files[m]) == Some(one));
    }
    if exists|k: int| 0 <= k < files.len() && listed_file(#[trigger] files[k]) == Some(one) {
        let m = choose|k: int| 0 <= k < files.len() && listed_file(#[trigger] files[k]) == Some(one);
        assert(f(files[m]) == Some(one));
        let x = choose|x: int| 0 <= x < all.len() && all[x] == one;
        assert(order.contains(x as usize));
        let k = choose|k: int| 0 <= k < order.len() && order[k] == x as usize;
        assert(list[k] == one);
    }
}

/// What is stored of a snapshot starts with the mark of its format, the time it
/// was made, and whether it holds content and was made without ignore rules.
pub proof fn law_stored_snapshots_start_with_their_mark(s: SnapshotView, paths: Seq<Seq<char>>)
    ensures
        ({
            let b = snapshot_bytes(s, paths);
            let flags: u32 = match (s.has_hashes, s.no_ignore) {
                (false, false) => 0,
                (true, false) => 1,
                (false, true) => 2,
                (true, true) => 3,
            };
            &&& b.len() >= 20
            &&& b.take(8) == seq![0x54u8, 0x47u8, 0x53u8, 0x4eu8, 0x41u8, 0x50u8, 0x01u8, 0x00u8]
            &&& b.subrange(8, 16) == spec_u64_to_le_bytes(s.created_at)
            &&& b.subrange(16, 20) == spec_u32_to_le_bytes(flags)
        }),
{
    lemma_auto_spec_u64_to_from_le_bytes();
    lemma_auto_spec_u32_to_from_le_bytes();
    let b = snapshot_bytes(s, paths);
    let mark = crate::snapshot_file::magic();
    let made = spec_u64_to_le_bytes(s.created_at);
    let flags = spec_u32_to_le_bytes(crate::snapshot_file::flags_of(s));
    assert(made.len() == 8);
    assert(flags.len() == 4);
    assert(b.take(8) =~= mark);
    assert(b.subrange(8, 16) =~= made);
    assert(b.subrange(16, 20) =~= flags);
}

/// Bytes that do not start with the mark are no snapshot, and fewer bytes than
/// the mark are none either.
pub proof fn law_other_files_are_no_snapshots(b: Seq<u8>, id: Seq<char>)
    requires
        b.len() < 8 || b.take(8) != seq![
            0x54u8,
            0x47u8,
            0x53u8,
            0x4eu8,
            0x41u8,
            0x50u8,
            0x01u8,
            0x00u8,
        ],
    ensures
        parse_snapshot(b, id) is Err,
        b.len() >= 8 ==> parse_snapshot(b, id) == Err::<SnapshotView, Seq<char>>(
            "`"@ + id + "` is not a tgrep snapshot (or was written by another version)"@,
        ),
{
}

proof fn lemma_version_keys()
    ensures
        "schema"@ != "platform"@,
        "schema"@ != "size"@,
        "schema"@ != "modified"@,
        "schema"@ != "created"@,
        "schema"@ != "unix"@,
        "schema"@ != "before_epoch"@,
        "schema"@ != "seconds"@,
        "schema"@ != "nanos"@,
        "schema"@ != "device"@,
        "schema"@ != "inode"@,
        "schema"@ != "change_seconds"@,
        "schema"@ != "change_nanos"@,
        "platform"@ != "size"@,
        "platform"@ != "modified"@,
        "platform"@ != "created"@,
        "platform"@ != "unix"@,
        "platform"@ != "before_epoch"@,
        "platform"@ != "seconds"@,
        "platform"@ != "nanos"@,
        "platform"@ != "device"@,
        "platform"@ != "inode"@,
        "platform"@ != "change_seconds"@,
        "platform"@ != "change_nanos"@,
        "size"@ != "modified"@,
        "size"@ != "created"@,
        "size"@ != "unix"@,
        "size"@ != "before_epoch"@,
        "size"@ != "seconds"@,
        "size"@ != "nanos"@,
        "size"@ != "device"@,
        "size"@ != "inode"@,
        "size"@ != "change_seconds"@,
        "size"@ != "change_nanos"@,
        "modified"@ != "created"@,
        "modified"@ != "unix"@,
        "modified"@ != "before_epoch"@,
        "modified"@ != "seconds"@,
        "modified"@ != "nanos"@,
        "modified"@ != "device"@,
        "modified"@ != "inode"@,
        "modified"@ != "change_seconds"@,
        "modified"@ != "change_nanos"@,
        "created"@ != "unix"@,
        "created"@ != "before_epoch"@,
        "created"@ != "seconds"@,
        "created"@ != "nanos"@,
        "created"@ != "device"@,
        "created"@ != "inode"@,
        "created"@ != "change_seconds"@,
        "created"@ != "change_nanos"@,
        "unix"@ != "before_epoch"@,
        "unix"@ != "seconds"@,
        "unix"@ != "nanos"@,
        "unix"@ != "device"@,
        "unix"@ != "inode"@,
        "unix"@ != "change_seconds"@,
        "unix"@ != "change_nanos"@,
        "before_epoch"@ != "seconds"@,
        "before_epoch"@ != "nanos"@,
        "before_epoch"@ != "device"@,
        "before_epoch"@ != "inode"@,
        "before_epoch"@ != "change_seconds"@,
        "before_epoch"@ != "change_nanos"@,
        "seconds"@ != "nanos"@,
        "seconds"@ != "device"@,
        "seconds"@ != "inode"@,
        "seconds"@ != "change_seconds"@,
        "seconds"@ != "change_nanos"@,
        "nanos"@ != "device"@,
        "nanos"@ != "inode"@,
        "nanos"@ != "change_seconds"@,
        "nanos"@ != "change_nanos"@,
        "device"@ != "inode"@,
        "device"@ != "change_seconds"@,
        "device"@ != "change_nanos"@,
        "inode"@ != "change_seconds"@,
        "inode"@ != "change_nanos"@,
        "change_seconds"@ != "change_nanos"@,
{
    reveal_strlit("schema");
    reveal_strlit("platform");
    reveal_strlit("size");
    reveal_strlit("modified");
    reveal_strlit("created");
    reveal_strlit("unix");
    reveal_strlit("before_epoch");
    reveal_strlit("seconds");
    reveal_strlit("nanos");
    reveal_strlit("device");
    reveal_strlit("inode");
    reveal_strlit("change_seconds");
    reveal_strlit("change_nanos");
    assert("schema"@.len() == 6);
    assert("platform"@.len() == 8);
    assert("size"@.len() == 4);
    assert("modified"@.len() == 8);
    assert("created"@.len() == 7);
    assert("unix"@.len() == 4);
    assert("before_epoch"@.len() == 12);
    assert("seconds"@.len() == 7);
    assert("nanos"@.len() == 5);
    assert("device"@.len() == 6);
    assert("inode"@.len() == 5);
    assert("change_seconds"@.len() == 14);
    assert("change_nanos"@.len() == 12);
    assert("schema"@[0] != "device"@[0]);
    assert("platform"@[0] != "modified"@[0]);
    assert("size"@[0] != "unix"@[0]);
    assert("created"@[0] != "seconds"@[0]);
    assert("before_epoch"@[0] != "change_nanos"@[0]);
    assert("nanos"@[0] != "inode"@[0]);
}

/// A stored version is read field by field, and one with a field that is not
/// known is not read at all.
pub proof fn law_stored_versions_are_read_field_by_field(value: JsonTree)
    requires
        value is Object,
    ensures
        crate::evidence_file::parsed_persisted(value) matches Some(p) ==> {
            &&& value.field_unsigned("schema"@) == Some(p.schema as u64)
            &&& value.field_text("platform"@) == Some(p.platform)
            &&& value.field_unsigned("size"@) == Some(p.size)
            &&& value.field("modified"@) matches Some(t) && crate::evidence_file::parsed_time(t)
                == Some(p.modified)
            &&& value.field("created"@) is Some
            &&& p.created is None <==> value.field("created"@) == Some(JsonTree::Null)
            &&& forall|k: Seq<char>| #[trigger]
                (value->Object_0).contains_key(k) ==> k == "schema"@ || k == "platform"@ || k
                    == "size"@ || k == "modified"@ || k == "created"@ || k == "unix"@
        },
{
    if crate::evidence_file::parsed_persisted(value) is Some {
        let keys = crate::evidence_file::persisted_keys();
        assert forall|k: Seq<char>| #[trigger] (value->Object_0).contains_key(k) implies k
            == "schema"@ || k == "platform"@ || k == "size"@ || k == "modified"@ || k == "created"@
            || k == "unix"@ by {
            assert(keys.contains(k));
            let i = choose|i: int| 0 <= i < keys.len() && keys[i] == k;
            assert(i == 0 || i == 1 || i == 2 || i == 3 || i == 4 || i == 5);
        }
    }
}

/// A stored time is read field by field.
pub proof fn law_stored_times_are_read_field_by_field(value: JsonTree)
    requires
        value is Object,
    ensures
        crate::evidence_file::parsed_time(value) matches Some(t) ==> {
            &&& value.field_bool("before_epoch"@) == Some(t.before_epoch)
            &&& value.field_unsigned("seconds"@) == Some(t.seconds)
            &&& value.field_unsigned("nanos"@) == Some(t.nanos as u64)
        },
        crate::evidence_file::parsed_unix(value) matches Some(u) ==> {
            &&& value.field_unsigned("device"@) == Some(u.device)
            &&& value.field_unsigned("inode"@) == Some(u.inode)
            &&& value.field("change_seconds"@) matches Some(s) && s.as_signed() == Some(
                u.change_seconds,
            )
            &&& value.field("change_nanos"@) matches Some(n) && n.as_signed() == Some(
                u.change_nanos,
            )
        },
{
}

/// A version is stored as data with every field under its own name.
pub proof fn law_stored_versions_name_their_fields(p: PersistedView, t: VersionTime, u: UnixVersion)
    ensures
        ({
            let v = crate::evidence_file::persisted_tree(p);
            &&& v.field_unsigned("schema"@) == Some(p.schema as u64)
            &&& v.field_text("platform"@) == Some(p.platform)
            &&& v.field_unsigned("size"@) == Some(p.size)
            &&& v.field("modified"@) == Some(crate::evidence_file::time_tree(p.modified))
            &&& v.field("created"@) == Some(
                match p.created {
                    Some(t) => crate::evidence_file::time_tree(t),
                    None => JsonTree::Null,
                },
            )
            &&& v.field("unix"@) == (match p.unix {
                Some(u) => Some(crate::evidence_file::unix_tree(u)),
                None => None,
            })
        }),
        ({
            let v = crate::evidence_file::time_tree(t);
            &&& v.field_bool("before_epoch"@) == Some(t.before_epoch)
            &&& v.field_unsigned("seconds"@) == Some(t.seconds)
            &&& v.field_unsigned("nanos"@) == Some(t.nanos as u64)
        }),
        ({
            let v = crate::evidence_file::unix_tree(u);
            &&& v.field_unsigned("device"@) == Some(u.device)
            &&& v.field_unsigned("inode"@) == Some(u.inode)
        }),
{
    lemma_version_keys();
}

/// A name that is taken is refused unless it may be replaced, and the refusal
/// says how.
pub proof fn law_taken_names_are_refused(id: Seq<char>, taken: bool, overwrite: bool)
    ensures
        clash_of(id, taken, overwrite) is Some <==> taken && !overwrite,
        clash_of(id, true, false) == Some(
            "snapshot `"@ + id + "` already exists; pass overwrite=true to replace it"@,
        ),
{
}

/// The answer to deleting a snapshot names it.
pub proof fn law_deleting_a_snapshot_is_answered(id: Seq<char>)
    ensures
        deleted_answer(id).structured.field_text("deleted"@) == Some(id),
        deleted_answer(id).text == "Deleted snapshot `"@ + id + "`.\n"@,
{
}

/// Each listed snapshot has a line with its name, how many files it holds, its
/// age, and whether it holds content; one that cannot be read has one too.
pub proof fn law_listed_snapshots_have_a_line(
    s: SnapshotView,
    now: u64,
    id: Seq<char>,
    error: Seq<char>,
    list: Seq<Listed>,
    one: Listed,
)
    ensures
        crate::snapshot_store::listed_line(Listed::Stored(s), now) == s.id + "  "@ + decimal(
            s.files.dom().len(),
        ) + " files  "@ + crate::snapshot::age_text(
            if now >= s.created_at {
                (now - s.created_at) as u64
            } else {
                0
            },
        ) + "  "@ + (if s.has_hashes {
            "hashed"@
        } else {
            "metadata"@
        }) + "\n"@,
        crate::snapshot_store::listed_line(Listed::Unreadable { id, error }, now) == id
            + "  0 files  ?  metadata\n"@,
        crate::snapshot_store::listed_lines(list.push(one), now)
            == crate::snapshot_store::listed_lines(list, now) + crate::snapshot_store::listed_line(
            one,
            now,
        ),
        crate::snapshot_store::listed_tree(Listed::Unreadable { id, error }, now).field_text("id"@)
            == Some(id),
        crate::snapshot_store::listed_tree(
            Listed::Unreadable { id, error },
            now,
        ).field_text("error"@) == Some(error),
        crate::snapshot_store::listed_tree(Listed::Stored(s), now)
            == crate::snapshot::snapshot_tree(s, now),
{
    lemma_keys();
    assert(list.push(one).drop_last() =~= list);
}

/// What is stored of a file in a snapshot: its path behind its length, its size,
/// its time, and then its digest and its content, each behind a mark of whether
/// it is there.
pub proof fn law_stored_files_are_laid_out(path: Seq<char>, e: EntryView)
    ensures
        crate::snapshot_file::entry_bytes(path, e) == spec_u32_to_le_bytes(
            encode_utf8(path).len() as u32,
        ) + encode_utf8(path) + spec_u64_to_le_bytes(e.size) + spec_u64_to_le_bytes(e.mtime) + (
        match e.digest {
            Some(d) => seq![1u8] + d,
            None => seq![0u8],
        }) + (match e.hash {
            Some(h) => seq![1u8] + h,
            None => seq![0u8],
        }),
{
    reveal(crate::snapshot_file::text_bytes);
}

/// What is stored of a snapshot: its mark, time and flags, its root and label,
/// the number of its files, and then each of them in order.
pub proof fn law_stored_snapshots_are_laid_out(
    s: SnapshotView,
    paths: Seq<Seq<char>>,
    path: Seq<char>,
)
    ensures
        ({
            let root = spec_u32_to_le_bytes(encode_utf8(s.root).len() as u32) + encode_utf8(s.root);
            let label = spec_u32_to_le_bytes(encode_utf8(s.label).len() as u32) + encode_utf8(
                s.label,
            );
            let front = snapshot_bytes(s, Seq::empty()).take(20);
            snapshot_bytes(s, Seq::empty()) == front + root + label + spec_u64_to_le_bytes(0)
        }),
        crate::snapshot_file::entries_bytes(paths.push(path), s.files)
            == crate::snapshot_file::entries_bytes(paths, s.files)
            + crate::snapshot_file::entry_bytes(path, s.files[path]),
{
    lemma_auto_spec_u64_to_from_le_bytes();
    lemma_auto_spec_u32_to_from_le_bytes();
    assert(paths.push(path).drop_last() =~= paths);
    reveal(crate::snapshot_file::text_bytes);
    let mark = crate::snapshot_file::magic();
    let made = spec_u64_to_le_bytes(s.created_at);
    let flags = spec_u32_to_le_bytes(crate::snapshot_file::flags_of(s));
    let root = spec_u32_to_le_bytes(encode_utf8(s.root).len() as u32) + encode_utf8(s.root);
    let label = spec_u32_to_le_bytes(encode_utf8(s.label).len() as u32) + encode_utf8(s.label);
    let count = spec_u64_to_le_bytes(0);
    let all = snapshot_bytes(s, Seq::empty());
    assert(made.len() == 8 && flags.len() == 4);
    let none = Seq::<u8>::empty();
    assert(crate::snapshot_file::entries_bytes(Seq::empty(), s.files) =~= none);
    assert(all == (mark + (made + (flags + (root + (label + count))))) + none);
    assert(all =~= mark + made + flags + root + label + count);
    assert(all.take(20) =~= mark + made + flags);
}

/// What the digest of a version is taken of, in order: its size and seconds, its
/// times, and what the platform tells.
pub proof fn law_digests_are_of_fields_in_order(v: FileVersion, unix: UnixVersion)
    requires
        v.platform == PlatformVersion::Unix(unix),
    ensures
        v.evidence_bytes() == spec_u64_to_le_bytes(v.stamp.size) + spec_u64_to_le_bytes(
            v.stamp.mtime,
        ) + crate::meta::time_bytes(v.modified) + crate::meta::time_bytes(v.created) + (
        spec_u64_to_le_bytes(unix.device) + spec_u64_to_le_bytes(unix.inode) + spec_u64_to_le_bytes(
            unix.change_seconds as u64,
        ) + spec_u64_to_le_bytes(unix.change_nanos as u64)),
        crate::meta::time_bytes(None) == seq![0u8],
        v.modified matches Some(t) ==> crate::meta::time_bytes(v.modified) == seq![
            1u8,
            if t.seconds < 0 {
                1u8
            } else {
                0u8
            },
        ] + spec_u64_to_le_bytes(version_time(t).seconds) + spec_u32_to_le_bytes(
            version_time(t).nanos,
        ),
{
}

/// A snapshot is of its root and time and of what the walk saw; it says whether
/// ignore rules were left aside, holds content only once that is recorded, and
/// is then given its name.
pub proof fn law_snapshots_are_of_what_was_seen(
    files: Seq<ObservedFile>,
    root: Seq<char>,
    created_at: u64,
    no_ignore: bool,
    hashes: Map<Seq<char>, Seq<u8>>,
    label: Seq<char>,
)
    ensures
        ({
            let seen = crate::snapshot_store::observed(files, root, created_at, no_ignore);
            let read = crate::snapshot_store::with_hashes(seen, hashes);
            let done = crate::snapshot_store::named(read, label);
            &&& seen.root == root && seen.created_at == created_at && seen.no_ignore == no_ignore
            &&& !seen.has_hashes && seen.files == observed_files(files)
            &&& read.has_hashes && read.files == hashed_files(seen.files, hashes)
            &&& read.root == root && read.created_at == created_at && read.no_ignore == no_ignore
            &&& done.files == read.files && done.has_hashes && done.root == root && done.created_at
                == created_at && done.no_ignore == no_ignore
            &&& done.label == label
            &&& label.len() > 0 ==> done.id == label
            &&& label.len() == 0 ==> done.id == "snap-"@ + decimal(created_at as nat)
        }),
{
}

} // verus!
