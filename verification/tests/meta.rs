//! Stamps, versions, identities and the metadata of an index.
use tgrep::evidence::{FileEvidence, PersistedVersion, Platform};
use tgrep::evidence_file::{
    read_file_evidence, write_file_evidence, EvidenceEntry, StoredEntry,
};
use tgrep::filestamps::{
    collect_filestamps, file_stamp, file_version, read_filestamps, write_filestamps, FileMetadata,
};
use tgrep::index_meta::{IndexMeta, LoadError, StoredMeta};
use tgrep::json::{from_value, parse, print, Json};
use tgrep::meta::{
    file_table_id, ContentId, Family, FileStamp, FileTime, FileVersion, PlatformVersion,
    UnixVersion, VersionTime,
};
use tgrep::path_map::PathMap;

fn linux() -> Platform {
    Platform { os: "linux".to_string(), family: Family::Unix }
}

fn metadata() -> FileMetadata {
    FileMetadata {
        size: 12,
        modified: Some(FileTime { seconds: 1_700_000_000, nanos: 123_456_789 }),
        created: Some(FileTime { seconds: 1_699_999_999, nanos: 5 }),
        platform: PlatformVersion::Unix(UnixVersion {
            device: 3,
            inode: 44,
            change_seconds: 1_700_000_000,
            change_nanos: 123_456_790,
        }),
    }
}

fn test_version() -> FileVersion {
    file_version(&metadata())
}

fn unix_of(version: &mut FileVersion) -> &mut UnixVersion {
    match &mut version.platform {
        PlatformVersion::Unix(unix) => unix,
        _ => panic!("a unix version"),
    }
}

fn same_evidence(a: &FileEvidence, b: &FileEvidence) {
    assert_eq!(a.stamps.len(), b.stamps.len());
    assert_eq!(a.content_ids.len(), b.content_ids.len());
    assert_eq!(a.versions.len(), b.versions.len());
    for i in 0..a.stamps.len() {
        let path = a.stamps.key_at(i);
        assert_eq!(a.stamp(path), b.stamp(path));
        assert_eq!(a.content_id(path), b.content_id(path));
        assert_eq!(a.version(path), b.version(path));
    }
}

/// The entries that a stored text holds.
fn entries(text: &str) -> Vec<(String, EvidenceEntry)> {
    let Ok(serde_json::Value::Object(map)) = serde_json::from_str(text) else {
        panic!("an object: {text}");
    };
    let found = |value: Option<&serde_json::Value>| {
        value.filter(|v| !v.is_null()).map(|v| from_value(v.clone()))
    };
    map.into_iter()
        .map(|(path, entry)| {
            let number = |key: &str| entry.get(key).and_then(|n| n.as_u64()).unwrap();
            let read = EvidenceEntry {
                mtime: number("mtime"),
                size: number("size"),
                c: found(entry.get("c")),
                v: found(entry.get("v")),
            };
            (path, read)
        })
        .collect()
}

/// The text of stored entries.
fn stored_text(stored: &[(String, StoredEntry)]) -> String {
    let mut all = Json::object();
    for (path, entry) in stored {
        let mut one = Json::object()
            .put("mtime", Json::unsigned(entry.mtime))
            .put("size", Json::unsigned(entry.size));
        if let Some(c) = &entry.c {
            one = one.put("c", Json::text(c));
        }
        if let Some(v) = &entry.v {
            one = one.put("v", v.to_json());
        }
        all = all.put(path, one);
    }
    print(&all)
}

/// The stamps that a stored text holds.
fn stamps(text: &str) -> PathMap<FileStamp> {
    let list = entries(text)
        .into_iter()
        .map(|(path, entry)| (path, FileStamp { mtime: entry.mtime, size: entry.size }))
        .collect();
    read_filestamps(Some(&list))
}

fn evidence_in(text: &str) -> FileEvidence {
    read_file_evidence(Some(&entries(text)), &linux())
}

#[test]
fn legacy_metadata_does_not_prove_hidden_coverage() {
    let mut stored = IndexMeta::new("root", 1, 2, 7, 100, Json::Null).save();
    stored.hidden_complete = None;
    stored.visibility = None;
    let meta = IndexMeta::load("", Some(Ok(stored)), Json::Null).ok().unwrap();
    assert!(meta.complete);
    assert!(!meta.hidden_complete);
}

#[test]
fn index_metadata_is_read_back() {
    let mut meta = IndexMeta::new("/repo", 10, 2000, 7, 1_700_000_000, Json::object());
    assert!(meta.complete);
    assert!(!meta.hidden_complete);
    assert!(meta.visibility.is_object());
    assert_eq!((meta.created_at, meta.updated_at), (1_700_000_000, 1_700_000_000));
    meta.hidden_complete = true;
    meta.visibility = parse(r#"{"complete": true}"#).unwrap();
    meta.file_table_id = Some(file_table_id(b"paths"));
    let stored = meta.save();
    assert_eq!((stored.complete, stored.hidden_complete), (Some(true), Some(true)));
    let loaded = IndexMeta::load("/index", Some(Ok(stored)), Json::Null).ok().unwrap();
    assert_eq!(loaded.root_path, "/repo");
    assert_eq!((loaded.version, loaded.num_files, loaded.num_trigrams), (7, 10, 2000));
    assert!(loaded.hidden_complete);
    assert_eq!(loaded.file_table_id, meta.file_table_id);
    assert_eq!(loaded.visibility.get_bool("complete"), Some(true));
}

#[test]
fn index_metadata_that_is_silent_gets_its_defaults() {
    let stored = StoredMeta {
        version: 7,
        num_files: 1,
        num_trigrams: 2,
        created_at: 3,
        updated_at: 4,
        root_path: "/r".to_string(),
        complete: None,
        hidden_complete: None,
        visibility: None,
        file_table_id: None,
    };
    let meta = IndexMeta::load("", Some(Ok(stored)), Json::text("none")).ok().unwrap();
    assert_eq!((meta.version, meta.updated_at, meta.root_path.as_str()), (7, 4, "/r"));
    assert!(meta.complete && !meta.hidden_complete);
    assert_eq!(meta.visibility.as_str(), Some("none"));
    let mut partial = meta.save();
    partial.complete = Some(false);
    assert!(!IndexMeta::load("", Some(Ok(partial)), Json::Null).ok().unwrap().complete);
}

#[test]
fn index_metadata_that_cannot_be_loaded_says_why() {
    match IndexMeta::load("/index", None, Json::Null) {
        Err(LoadError::IndexNotFound(dir)) => assert_eq!(dir, "/index"),
        _ => panic!("no index"),
    }
    match IndexMeta::load("/index", Some(Err("missing field".to_string())), Json::Null) {
        Err(LoadError::Unreadable(why)) => assert_eq!(why, "missing field"),
        _ => panic!("no metadata"),
    }
}

#[test]
fn table_identities_are_hashes() {
    let id = file_table_id(b"");
    let hex: String = id.iter().map(|b| format!("{b:02x}")).collect();
    assert_eq!(hex, "af1349b9f5f9a1a6a0404dea36dcc9499bcb25c9adc112b7cc9a93cae41f3262");
}

#[test]
fn evidence_digest_sees_a_same_size_rewrite_the_stamp_misses() {
    let before = test_version();
    let mut rewritten = metadata();
    rewritten.modified = Some(FileTime { seconds: 1_700_000_000, nanos: 173_456_789 });
    let after = file_version(&rewritten);
    assert!(
        before.is_trusted() && after.is_trusted(),
        "this platform reports incomplete metadata, so the digest is unavailable"
    );
    assert_eq!(
        before.stamp(),
        after.stamp(),
        "both writes must land in one second for this to test anything"
    );
    assert_ne!(before.evidence_digest(), after.evidence_digest());
    assert!(before.evidence_digest().is_some());
}

#[test]
fn file_evidence_is_legacy_compatible_and_roundtrips_ids() {
    let legacy = evidence_in(r#"{"legacy.rs":{"mtime":1,"size":2}}"#);
    assert_eq!(legacy.stamp("legacy.rs"), Some(&FileStamp { mtime: 1, size: 2 }));
    assert_eq!(legacy.content_id("legacy.rs"), None);
    assert!(legacy.versions.is_empty());

    let id = ContentId::from_indexed_bytes(b"decoded text");
    let mut evidence = FileEvidence::default();
    evidence.insert("indexed.rs".to_string(), FileStamp { mtime: 3, size: 4 }, Some(id));
    let stored = stored_text(&write_file_evidence(&evidence, "linux"));

    same_evidence(&evidence_in(&stored), &evidence);
    assert_eq!(
        stamps(&stored).get("indexed.rs"),
        Some(&FileStamp { mtime: 3, size: 4 })
    );
    assert!(stored.contains(&format!(r#""c":"{}""#, id.to_hex())));
}

#[test]
fn malformed_content_id_drops_only_that_paths_identity() {
    let evidence = evidence_in(
        r#"{
                "short.rs":{"mtime":1,"size":2,"c":"abcd"},
                "uppercase.rs":{"mtime":3,"size":4,"c":"AAAAAAAAAAAAAAAAAAAAAAAAAAAAAAAA"},
                "wrong-type.rs":{"mtime":5,"size":6,"c":7}
            }"#,
    );
    assert_eq!(evidence.stamps.len(), 3);
    assert!(evidence.content_ids.is_empty());
    assert_eq!(evidence.stamp("wrong-type.rs"), Some(&FileStamp { mtime: 5, size: 6 }));
}

#[test]
fn file_version_distinguishes_subsecond_modified_times() {
    let mut first = test_version();
    first.stamp.mtime = 1;
    first.modified = Some(FileTime { seconds: 1, nanos: 100 });
    let second = FileVersion { modified: Some(FileTime { seconds: 1, nanos: 200 }), ..first };

    assert_ne!(first, second);
    assert_eq!(first.stamp, second.stamp);
}

#[test]
fn precise_versions_roundtrip_without_changing_legacy_stamps() {
    let version = test_version();
    let mut evidence = FileEvidence::default();
    evidence.insert_verified(
        "indexed.rs".into(),
        *version.stamp(),
        Some(ContentId::from_indexed_bytes(b"indexed text")),
        Some(version),
    );
    let stored = stored_text(&write_file_evidence(&evidence, "linux"));
    same_evidence(&evidence_in(&stored), &evidence);
    let found = stamps(&stored);
    assert_eq!(found.len(), evidence.stamps.len());
    assert_eq!(found.get("indexed.rs"), evidence.stamp("indexed.rs"));

    let plain = write_filestamps(&evidence.stamps)
        .into_iter()
        .map(|(path, FileStamp { mtime, size })| {
            (path, EvidenceEntry { mtime, size, c: None, v: None })
        })
        .collect();
    let legacy = read_file_evidence(Some(&plain), &linux());
    assert_eq!(legacy.stamps.len(), evidence.stamps.len());
    assert_eq!(legacy.stamp("indexed.rs"), evidence.stamp("indexed.rs"));
    assert!(legacy.versions.is_empty());
}

#[test]
fn malformed_or_incompatible_versions_fail_open_per_path() {
    let version = test_version();
    let id = ContentId::from_indexed_bytes(b"indexed text");
    let persisted = version.persisted("linux").unwrap();
    let valid = || persisted.to_json();
    let without = |key: &str| match valid() {
        Json::Object(entries) => {
            Json::Object(entries.into_iter().filter(|(k, _)| k != key).collect())
        }
        _ => panic!("an object"),
    };
    let time = |seconds: u64, nanos: u64| {
        Json::object()
            .put("before_epoch", Json::Bool(false))
            .put("seconds", Json::unsigned(seconds))
            .put("nanos", Json::unsigned(nanos))
    };
    let seconds = persisted.modified.seconds;
    let nanos = persisted.modified.nanos as u64;
    let bad_platform = valid().put("platform", Json::text("unsupported-platform"));
    let future_schema = valid().put("schema", Json::unsigned(2));
    let bad_nanos = valid().put("modified", time(seconds, 1_000_000_000));
    let overflow_time = valid().put("modified", time(u64::MAX, nanos));
    let missing_modified = without("modified");
    let missing_created = without("created");
    let bad_created = valid().put("created", time(0, 1_000_000_000));
    let mismatched_stamp = valid().put("modified", time(version.stamp().mtime + 1, nanos));
    let mismatched_size = valid().put("size", Json::unsigned(version.stamp().size + 1));
    let bad_unix = valid().put("unix", Json::Null);
    let invalid = vec![
        Json::Null,
        Json::text("not a version"),
        Json::object(),
        bad_platform,
        future_schema,
        bad_nanos,
        overflow_time,
        missing_modified,
        missing_created,
        bad_created,
        mismatched_stamp,
        mismatched_size,
        bad_unix,
    ];
    let entry = |value: Json| {
        Json::object()
            .put("mtime", Json::unsigned(version.stamp().mtime))
            .put("size", Json::unsigned(version.stamp().size))
            .put("c", Json::text(&id.to_hex()))
            .put("v", value)
    };
    let mut all = Json::object();
    let total = invalid.len() + 1;
    for (i, value) in invalid.into_iter().enumerate() {
        all = all.put(&format!("{i}.rs"), entry(value));
    }
    all = all.put("valid.rs", entry(valid()));
    let evidence = evidence_in(&print(&all));
    assert_eq!(evidence.stamps.len(), total);
    assert_eq!(evidence.content_ids.len(), total);
    assert_eq!(evidence.versions.len(), 1);
    assert_eq!(evidence.version("valid.rs"), Some(&version));
}

#[test]
fn legacy_insert_and_evidence_lifecycle_clear_versions() {
    let version = test_version();
    let mut evidence = FileEvidence::default();
    for path in ["legacy.rs", "remove.rs", "retain.rs", "clear.rs"] {
        evidence.insert_verified(path.into(), *version.stamp(), None, Some(version));
    }
    evidence.insert("legacy.rs".into(), *version.stamp(), None);
    assert!(evidence.version("legacy.rs").is_none());
    assert!(!evidence.versions.contains_key("legacy.rs"));
    evidence.remove("remove.rs");
    assert!(!evidence.versions.contains_key("remove.rs"));
    evidence.retain(|path: &str, _: &FileStamp| path != "retain.rs");
    assert!(!evidence.versions.contains_key("retain.rs"));
    assert_eq!(evidence.versions.len(), 1);
    evidence.clear();
    assert!(evidence.versions.is_empty());
}

#[test]
fn untrusted_or_mismatched_versions_are_not_persisted() {
    let version = test_version();
    let mut untrusted = version;
    untrusted.modified = None;
    let mut evidence = FileEvidence::default();
    evidence.insert_verified("untrusted.rs".into(), *version.stamp(), None, Some(untrusted));
    evidence.insert_verified(
        "mismatched.rs".into(),
        FileStamp { mtime: 0, size: 0 },
        None,
        Some(version),
    );
    assert!(evidence.versions.is_empty());

    evidence.versions.insert("untrusted.rs".into(), untrusted);
    evidence.versions.insert("mismatched.rs".into(), version);
    assert!(evidence.version("untrusted.rs").is_none());
    assert!(evidence.version("mismatched.rs").is_none());
    let stored = stored_text(&write_file_evidence(&evidence, "linux"));
    assert!(evidence_in(&stored).versions.is_empty());
}

#[test]
fn version_timestamps_roundtrip_before_the_epoch() {
    let mut version = test_version();
    version.stamp.mtime = 0;
    version.modified = Some(FileTime { seconds: -1, nanos: 999_999_999 });
    let persisted = version.persisted("linux").unwrap();
    assert!(persisted.modified.before_epoch);
    assert_eq!((persisted.modified.seconds, persisted.modified.nanos), (0, 1));
    assert_eq!(persisted.decode(version.stamp, &linux()), Some(version));
}

#[test]
fn invalid_unix_change_nanoseconds_are_not_trusted() {
    let mut version = test_version();
    for nanos in [-1, 1_000_000_000] {
        unix_of(&mut version).change_nanos = nanos;
        assert!(!version.is_trusted());
        assert!(version.persisted("linux").is_none());
        assert!(version.evidence_digest().is_none());
    }
}

#[test]
fn trust_depends_on_the_platform() {
    let mut version = test_version();
    version.platform = PlatformVersion::Windows;
    assert!(version.is_trusted());
    version.created = None;
    assert!(!version.is_trusted());
    version.platform = PlatformVersion::Other;
    assert!(!version.is_trusted());
}

#[test]
fn nothing_stored_is_no_evidence() {
    assert!(read_file_evidence(None, &linux()).stamps.is_empty());
    assert!(read_filestamps(None).is_empty());
    let twice = vec![
        ("a".to_string(), FileStamp { mtime: 1, size: 2 }),
        ("a".to_string(), FileStamp { mtime: 3, size: 4 }),
    ];
    let found = read_filestamps(Some(&twice));
    assert_eq!(found.len(), 1);
    assert_eq!(found.get("a"), Some(&FileStamp { mtime: 3, size: 4 }));
}

#[test]
fn identities_are_hexadecimal() {
    let id = ContentId::from_indexed_bytes(b"decoded text");
    let text = id.to_hex();
    assert_eq!(text.len(), 32);
    assert_eq!(ContentId::from_hex(&text), Some(id));
    assert_eq!(ContentId::from_hex(&text.to_uppercase()).is_some(), text == text.to_uppercase());
    assert_eq!(ContentId::from_hex(&text[1..]), None);
    assert_ne!(id, ContentId::from_indexed_bytes(b"other text"));
    let mut input = b"tgrep/content-id/v1\0decode_for_index-output\0binary-and-posting-semantics-v2".to_vec();
    input.extend_from_slice(b"decoded text");
    let whole: String =
        blake3::hash(&input).as_bytes()[..16].iter().map(|b| format!("{b:02x}")).collect();
    assert_eq!(text, whole);
}

#[test]
fn stamps_count_whole_seconds() {
    assert_eq!(file_stamp(&metadata()), FileStamp { mtime: 1_700_000_000, size: 12 });
    let mut early = metadata();
    early.modified = Some(FileTime { seconds: -5, nanos: 3 });
    assert_eq!(file_stamp(&early).mtime, 0);
    early.modified = None;
    assert_eq!(file_stamp(&early).mtime, 0);
}

#[test]
fn stamps_are_collected_of_readable_files() {
    let found = vec![
        ("a.rs".to_string(), Some(metadata())),
        ("gone.rs".to_string(), None),
    ];
    let stamps = collect_filestamps(&found);
    assert_eq!(stamps.len(), 1);
    assert_eq!(stamps.get("a.rs"), Some(&FileStamp { mtime: 1_700_000_000, size: 12 }));
    let read = read_filestamps(Some(&write_filestamps(&stamps)));
    assert_eq!(read.get("a.rs"), stamps.get("a.rs"));
    assert_eq!(read.len(), 1);
}

#[test]
fn times_are_distances_from_the_epoch() {
    let t = VersionTime::of(FileTime { seconds: -2, nanos: 250_000_000 });
    assert_eq!((t.before_epoch, t.seconds, t.nanos), (true, 1, 750_000_000));
    assert_eq!(t.decode(), Some(FileTime { seconds: -2, nanos: 250_000_000 }));
    let late = VersionTime { before_epoch: false, seconds: u64::MAX, nanos: 0 };
    assert_eq!(late.decode(), None);
}

#[test]
fn stored_versions_reject_unknown_fields() {
    let json = test_version().persisted("linux").unwrap().to_json();
    assert!(PersistedVersion::from_json(&json).is_some());
    let more = json.put("extra", Json::Null);
    assert!(PersistedVersion::from_json(&more).is_none());
}

#[test]
fn evidence_starts_from_stamps() {
    let mut stamps = PathMap::new();
    stamps.insert("a".to_string(), FileStamp { mtime: 1, size: 2 });
    let mut evidence = FileEvidence::from_stamps(stamps);
    assert_eq!(evidence.stamp("a"), Some(&FileStamp { mtime: 1, size: 2 }));
    assert!(evidence.content_ids.is_empty());
    assert_eq!(evidence.remove("a"), Some(FileStamp { mtime: 1, size: 2 }));
    assert_eq!(evidence.remove("a"), None);
}

#[test]
fn stored_versions_may_be_lists_of_their_fields() {
    let version = r#"[1, "linux", 12, [false, 1700000000, 5], null, [3, 44, 1700000000, 6]]"#;
    let text = format!(r#"{{"a": {{"mtime": 1700000000, "size": 12, "v": {version}}}}}"#);
    let evidence = evidence_in(&text);
    let read = evidence.version("a").unwrap();
    assert_eq!(read.modified, Some(FileTime { seconds: 1_700_000_000, nanos: 5 }));
}
