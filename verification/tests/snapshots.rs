//! Snapshots: what they record, how they are stored, and what a diff reports.
use tgrep::clock::Elapsed;
use tgrep::filestamps::{file_version, FileMetadata};
use tgrep::json::{parse, Json};
use tgrep::meta::{FileTime, PlatformVersion, UnixVersion};
use tgrep::path_map::PathMap;
use tgrep::snapshot::{age, hash_content, sanitize_id, Snapshot};
use tgrep::snapshot_file::{read_snapshot, write_snapshot};
use tgrep::snapshot_laws::paths_to_hash;
use tgrep::snapshot_store::{
    create, create_request, delete, delete_id, list, name_clash, name_snapshot, observe,
    record_hashes, snapshot_file_name, ObservedFile, StoredFile,
};
use tgrep::snapshot_tools::{diff, diff_base, diff_options, no_base, no_snapshot};
use tgrep::tool::ToolOutput;

const NOW: u64 = 1_700_000_000;

/// A file of a tree: path, content, when it was modified, and when anything of
/// it last changed.
type File = (&'static str, &'static str, i64, i64);

const FIXTURE: [File; 3] = [
    ("notes.md", "needle appears here too\n", 100, 100),
    ("src/lib.rs", "pub fn needle() {}\npub fn other() {}\n", 100, 100),
    ("src/main.rs", "fn main() {\n    needle();\n}\n", 100, 100),
];

fn tree(files: &[File]) -> Snapshot {
    let observed: Vec<ObservedFile> = files
        .iter()
        .map(|(path, content, modified, changed)| {
            let version = file_version(&FileMetadata {
                size: content.len() as u64,
                modified: Some(FileTime { seconds: *modified, nanos: 0 }),
                created: None,
                platform: PlatformVersion::Unix(UnixVersion {
                    device: 1,
                    inode: 2,
                    change_seconds: *changed,
                    change_nanos: 0,
                }),
            });
            ObservedFile {
                relative_path: path.to_string(),
                size: version.stamp.size,
                mtime: version.stamp.mtime,
                version: Some(version),
            }
        })
        .collect();
    observe(&observed, "/repo", NOW, false)
}

fn hashes(files: &[File]) -> PathMap<[u8; 32]> {
    let mut map = PathMap::new();
    for (path, content, _, _) in files {
        map.insert(path.to_string(), hash_content(content.as_bytes()));
    }
    map
}

fn base(files: &[File], label: &str, hashed: bool) -> Snapshot {
    let observed = tree(files);
    let recorded = if hashed { record_hashes(observed, &hashes(files)) } else { observed };
    let named = name_snapshot(recorded, label);
    let stored = write_snapshot(&named).expect("fits the format");
    read_snapshot(&stored, label).ok().expect("reads back")
}

/// Diffs a tree against a base, reading the files that have to be read.
fn changes(base: &Snapshot, now: &[File], args: &str) -> ToolOutput {
    let args = parse(args).unwrap();
    assert!(diff_base(&args).is_ok());
    let options = diff_options(&args).ok().unwrap();
    let target = tree(now);
    let mut read = PathMap::new();
    for path in paths_to_hash(base, &target, &options) {
        let file = now.iter().find(|f| f.0 == path).expect("a file of the tree");
        read.insert(path, hash_content(file.1.as_bytes()));
    }
    diff(base, &target, &options, &read, NOW, 1)
}

fn count(output: &ToolOutput, kind: &str) -> Option<u64> {
    output.structured.get("counts").unwrap().get_u64(kind)
}

fn first<'a>(output: &'a ToolOutput, kind: &str, key: &str) -> &'a str {
    output.structured.get_list(kind).unwrap()[0].get_str(key).unwrap()
}

#[test]
fn snapshot_diff_reports_additions_changes_and_deletions() {
    let before = base(&FIXTURE, "base", false);
    let now: [File; 3] = [
        ("src/added.rs", "fn added() {}\n", 200, 200),
        ("src/lib.rs", "pub fn needle() { todo!() }\n", 200, 200),
        FIXTURE[2],
    ];
    let result = changes(&before, &now, r#"{"base": "base"}"#);
    assert_eq!(count(&result, "added"), Some(1));
    assert_eq!(count(&result, "modified"), Some(1));
    assert_eq!(count(&result, "deleted"), Some(1));
    assert_eq!(first(&result, "added", "path"), "src/added.rs");
    assert_eq!(first(&result, "modified", "path"), "src/lib.rs");
    assert_eq!(first(&result, "deleted", "path"), "notes.md");

    let scoped = changes(&before, &now, r#"{"base": "base", "path": "src"}"#);
    assert_eq!(count(&scoped, "deleted"), Some(0));
    assert_eq!(count(&scoped, "added"), Some(1));
}

#[test]
fn verification_needs_a_hashed_base_and_clears_untouched_files() {
    let plain = base(&FIXTURE, "plain", false);
    let hashed = base(&FIXTURE, "hashed", true);
    let mut now = FIXTURE;
    now[1].2 = 102;
    now[1].3 = 102;

    let unverifiable = changes(&plain, &now, r#"{"base": "plain", "verify": "suspect"}"#);
    let verification = unverifiable.structured.get("verification").unwrap();
    assert_eq!(verification.get_bool("available"), Some(false));
    assert!(verification.get_str("note").unwrap().contains("no content hashes"));

    let unverified = changes(&hashed, &now, r#"{"base": "hashed"}"#);
    assert_eq!(count(&unverified, "modified"), Some(1));

    let verified = changes(&hashed, &now, r#"{"base": "hashed", "verify": "suspect"}"#);
    assert_eq!(count(&verified, "modified"), Some(0));
    assert_eq!(
        verified.structured.get("verification").unwrap().get_u64("cleared"),
        Some(1)
    );
}

#[test]
fn renames_are_detected_from_a_hashed_snapshot() {
    let before = base(&FIXTURE, "base", true);
    let now: [File; 3] = [("moved.md", FIXTURE[0].1, 100, 101), FIXTURE[1], FIXTURE[2]];

    let plain = changes(&before, &now, r#"{"base": "base"}"#);
    assert_eq!(count(&plain, "added"), Some(1));
    assert_eq!(count(&plain, "deleted"), Some(1));

    let renamed = changes(&before, &now, r#"{"base": "base", "detect_renames": true}"#);
    assert_eq!(count(&renamed, "renamed"), Some(1));
    assert_eq!(count(&renamed, "added"), Some(0));
    assert_eq!(count(&renamed, "deleted"), Some(0));
    assert_eq!(first(&renamed, "renamed", "from"), "notes.md");
    assert_eq!(first(&renamed, "renamed", "to"), "moved.md");
}

#[test]
fn snapshots_are_listed_deleted_and_name_checked() {
    let stored = |label: &str| {
        let named = name_snapshot(tree(&FIXTURE), label);
        StoredFile {
            name: snapshot_file_name(label),
            content: Ok(write_snapshot(&named).unwrap()),
        }
    };
    let request = create_request(&parse(r#"{"label": "one"}"#).unwrap()).ok().unwrap();
    assert_eq!(request.label, "one");
    assert!(!request.with_hashes && !request.overwrite);
    let listed = list(&vec![stored("one")], NOW);
    let snapshots = listed.structured.get_list("snapshots").unwrap();
    assert_eq!(snapshots[0].get_str("id"), Some("one"));
    assert_eq!(snapshots[0].get_u64("files"), Some(3));

    let clash = name_clash("one", true, false).unwrap();
    assert!(clash.contains("already exists"), "{clash}");
    assert_eq!(name_clash("one", true, true), None);
    assert_eq!(name_clash("one", false, false), None);

    for bad in ["../escape", "a/b", "with space", ""] {
        let args = Json::object().put("label", Json::text(bad));
        assert!(create_request(&args).is_err(), "{bad:?}");
        assert!(sanitize_id(bad).is_err(), "{bad:?}");
    }

    assert_eq!(delete_id(&parse(r#"{"id": "one"}"#).unwrap()), Ok("one".to_string()));
    assert!(delete_id(&parse("{}").unwrap()).is_err());
    assert_eq!(delete("one").structured.get_str("deleted"), Some("one"));
    let empty = list(&Vec::new(), NOW);
    assert_eq!(empty.structured.get_list("snapshots").unwrap().len(), 0);
    assert!(no_base("one").contains("no snapshot"));
    assert!(no_snapshot("one").contains("no snapshot"));
}

#[test]
fn verification_counts_what_it_actually_compared() {
    let before = base(&FIXTURE, "base", true);
    let now: [File; 3] = [
        FIXTURE[0],
        (FIXTURE[1].0, FIXTURE[1].1, 102, 102),
        ("src/main.rs", "fn main() { needle(); todo!() }\n", 102, 102),
    ];
    for mode in ["suspect", "all"] {
        let result =
            changes(&before, &now, &format!(r#"{{"base": "base", "verify": "{mode}"}}"#));
        let verification = result.structured.get("verification").unwrap();
        assert_eq!(count(&result, "modified"), Some(1), "{mode}");
        assert_eq!(first(&result, "modified", "path"), "src/main.rs", "{mode}");
        assert_eq!(verification.get_bool("available"), Some(true), "{mode}");
        assert_eq!(verification.get_u64("cleared"), Some(1), "{mode}");
    }
}

#[test]
fn content_verification_finds_a_change_metadata_cannot_see() {
    let before = base(&FIXTURE, "base", true);
    let mut now = FIXTURE;
    now[1].1 = "Pub fn needle() {}\npub fn other() {}\n";

    let blind = changes(&before, &now, r#"{"base": "base"}"#);
    assert_eq!(count(&blind, "modified"), Some(0), "metadata should be unable to see this");

    let seen = changes(&before, &now, r#"{"base": "base", "verify": "all"}"#);
    assert_eq!(count(&seen, "modified"), Some(1));
    assert_eq!(first(&seen, "modified", "path"), "src/lib.rs");
    assert_eq!(first(&seen, "modified", "evidence"), "content-hash");
    assert_eq!(
        seen.structured.get("verification").unwrap().get_u64("content_only"),
        Some(1)
    );
}

#[test]
fn an_unchanged_tree_shows_no_difference() {
    let before = base(&FIXTURE, "base", true);
    for args in [
        r#"{"base": "base"}"#,
        r#"{"base": "base", "verify": "suspect"}"#,
        r#"{"base": "base", "verify": "all", "detect_renames": true}"#,
    ] {
        let result = changes(&before, &FIXTURE, args);
        for kind in ["added", "modified", "deleted"] {
            assert_eq!(count(&result, kind), Some(0), "{args} {kind}");
        }
    }
}

#[test]
fn a_change_of_digest_is_named_and_stays_small_in_the_listing() {
    let before = base(&FIXTURE, "base", false);
    let now: [File; 4] = [
        (FIXTURE[0].0, FIXTURE[0].1, 100, 101),
        ("new/a", "1", 1, 1),
        ("new/b", "2", 1, 1),
        FIXTURE[2],
    ];
    let result = changes(&before, &now, r#"{"base": "base", "max_entries": 1}"#);
    assert_eq!(first(&result, "modified", "evidence"), "metadata-digest");
    assert_eq!(count(&result, "added"), Some(2));
    assert_eq!(result.structured.get_list("added").unwrap().len(), 1);
    assert_eq!(count(&result, "deleted"), Some(1));
    assert_eq!(result.structured.get_bool("truncated"), Some(true));
}

#[test]
fn diff_arguments_are_checked() {
    assert!(diff_base(&parse("{}").unwrap()).is_err());
    assert!(diff_base(&parse(r#"{"base": "../x"}"#).unwrap()).is_err());
    assert_eq!(
        diff_options(&parse(r#"{"base": "b", "verify": "maybe"}"#).unwrap()).err().unwrap(),
        "`verify` must be none, suspect or all"
    );
    let options = diff_options(&parse(r#"{"base": "b", "target": "live"}"#).unwrap()).ok().unwrap();
    assert!(options.target.is_none());
    assert_eq!(options.max_entries, 200);
    let options = diff_options(&parse(r#"{"base": "b", "target": "t"}"#).unwrap()).ok().unwrap();
    assert_eq!(options.target.as_deref(), Some("t"));
}

#[test]
fn only_the_files_in_question_are_read() {
    let before = base(&FIXTURE, "base", true);
    let mut now = FIXTURE;
    now[1].2 = 102;
    now[1].3 = 102;
    let asked = |args: &str| {
        paths_to_hash(&before, &tree(&now), &diff_options(&parse(args).unwrap()).ok().unwrap())
    };
    assert!(asked(r#"{"base": "base"}"#).is_empty());
    assert_eq!(asked(r#"{"base": "base", "verify": "suspect"}"#), ["src/lib.rs"]);
    assert_eq!(asked(r#"{"base": "base", "verify": "all"}"#).len(), 3);
    assert_eq!(asked(r#"{"base": "base", "verify": "all", "path": "src"}"#).len(), 2);
    assert!(asked(r#"{"base": "base", "detect_renames": true}"#).is_empty());
}

#[test]
fn stored_snapshots_are_read_back() {
    let named = name_snapshot(record_hashes(tree(&FIXTURE), &hashes(&FIXTURE)), "keep");
    let stored = write_snapshot(&named).unwrap();
    let read = read_snapshot(&stored, "keep").ok().unwrap();
    assert_eq!(read.id, "keep");
    assert_eq!(read.label, "keep");
    assert_eq!(read.root, "/repo");
    assert_eq!(read.created_at, NOW);
    assert!(read.has_hashes);
    assert_eq!(read.files.len(), 3);
    let entry = read.files.get("notes.md").unwrap();
    assert_eq!(entry.size, FIXTURE[0].1.len() as u64);
    assert_eq!(entry.hash, Some(hash_content(FIXTURE[0].1.as_bytes())));
    assert!(entry.digest.is_some());
}

#[test]
fn snapshots_keep_how_they_were_walked() {
    for no_ignore in [false, true] {
        for hashed in [false, true] {
            let mut observed = tree(&FIXTURE);
            observed.no_ignore = no_ignore;
            let recorded =
                if hashed { record_hashes(observed, &hashes(&FIXTURE)) } else { observed };
            let stored = write_snapshot(&name_snapshot(recorded, "b")).unwrap();
            let expected = u8::from(hashed) + 2 * u8::from(no_ignore);
            assert_eq!(stored[16], expected);
            let read = read_snapshot(&stored, "b").ok().unwrap();
            assert_eq!((read.no_ignore, read.has_hashes), (no_ignore, hashed));
            let again = changes(&read, &FIXTURE, r#"{"base": "b", "detect_renames": true}"#);
            for kind in ["added", "modified", "deleted", "renamed"] {
                assert_eq!(count(&again, kind), Some(0), "{kind}");
            }
        }
    }
}

#[test]
fn damaged_snapshots_are_refused() {
    let stored = write_snapshot(&name_snapshot(tree(&FIXTURE), "x")).unwrap();
    for cut in [0, 4, 7, 20, stored.len() - 1] {
        assert!(read_snapshot(&stored[..cut], "x").is_err(), "{cut}");
    }
    let mut other = stored.clone();
    other[0] ^= 1;
    assert!(read_snapshot(&other, "x").is_err());
    let listed = list(
        &vec![
            StoredFile { name: "bad.tgsnap".to_string(), content: Ok(vec![1, 2, 3]) },
            StoredFile { name: "gone.tgsnap".to_string(), content: Err("lost".to_string()) },
            StoredFile { name: "notes.txt".to_string(), content: Ok(stored) },
        ],
        NOW,
    );
    assert_eq!(listed.structured.get_list("snapshots").unwrap().len(), 2);
}

#[test]
fn unlabelled_snapshots_are_named_after_their_time() {
    let named = name_snapshot(tree(&FIXTURE), "");
    assert!(named.id.contains(&NOW.to_string()), "{}", named.id);
    let made = create(&named, NOW, Elapsed { secs: 1, nanos: 500_000_000 });
    assert!(made.text.contains(&named.id), "{}", made.text);
    assert_eq!(snapshot_file_name("x"), "x.tgsnap");
}

#[test]
fn newest_snapshots_come_first() {
    let at = |label: &str, created: u64| {
        let mut snapshot = name_snapshot(tree(&FIXTURE), label);
        snapshot.created_at = created;
        StoredFile {
            name: snapshot_file_name(label),
            content: Ok(write_snapshot(&snapshot).unwrap()),
        }
    };
    let listed = list(&vec![at("old", NOW - 90), at("new", NOW - 5), at("mid", NOW - 30)], NOW);
    let ids: Vec<&str> = listed
        .structured
        .get_list("snapshots")
        .unwrap()
        .iter()
        .map(|s| s.get_str("id").unwrap())
        .collect();
    assert_eq!(ids, ["new", "mid", "old"]);
}

#[test]
fn ages_are_readable() {
    assert_eq!(age(NOW, NOW), "0s ago");
    assert_eq!(age(NOW - 3600, NOW), "1h ago");
    assert_eq!(age(NOW + 1, NOW), "0s ago");
}

#[test]
fn content_hashes_are_blake3() {
    assert_eq!(hash_content(b"abc"), *blake3::hash(b"abc").as_bytes());
}
