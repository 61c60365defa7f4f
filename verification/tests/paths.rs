//! Paths as they are printed, scoped and ordered.
use tgrep::meta::FileTime;
use tgrep::output::PathDisplay;
use tgrep::paths::{
    display_path, explicit_file_display_path, within_max_depth, IndexScope,
};
use tgrep::selection::{FileFacts, Selected};
use tgrep::sort::{SortKey, SortMode};
use tgrep::targets::normalize_search_paths;

fn owned(items: &[&str]) -> Vec<String> {
    items.iter().map(|s| s.to_string()).collect()
}

#[test]
fn display_path_strips_extended_length_prefix() {
    assert_eq!(display_path(r"\\?\C:\src\repo\.tgrep"), r"C:\src\repo\.tgrep");
}

#[test]
fn display_path_restores_unc_paths() {
    assert_eq!(display_path(r"\\?\UNC\server\share\idx"), r"\\server\share\idx");
}

#[test]
fn display_path_leaves_ordinary_paths_alone() {
    assert_eq!(display_path(r"C:\src\repo"), r"C:\src\repo");
    assert_eq!(display_path("/home/user/repo"), "/home/user/repo");
}

#[test]
fn explicit_file_path_outside_cwd_is_editor_openable() {
    let rendered = explicit_file_display_path(r"\\?\D:\other\tree\main.rs", None);
    assert_eq!(rendered, "D:/other/tree/main.rs");
    assert!(!rendered.contains("//?/"), "got: {rendered}");
}

#[test]
fn explicit_file_path_keeps_unc_shares_usable() {
    assert_eq!(
        explicit_file_display_path(r"\\?\UNC\server\share\main.rs", None),
        "//server/share/main.rs"
    );
}

#[test]
fn explicit_file_path_below_the_current_directory_is_relative() {
    assert_eq!(
        explicit_file_display_path("/work/src/main.rs", Some(r"src\main.rs")),
        "src/main.rs"
    );
}

#[test]
fn indexed_sort_preserves_entries_and_component_order() {
    let entries = [
        (1, "src.rs"),
        (2, "src/lib.rs"),
        (3, "a.rs"),
        (4, "src/lib.rs"),
    ];
    for (reverse, expected) in [(false, [3, 2, 4, 1]), (true, [1, 4, 2, 3])] {
        let facts = FileFacts { time: None, passes: true, size: None, readable: true };
        let list: Vec<Selected> = entries
            .iter()
            .map(|(id, rel)| Selected { id: *id, path: rel.to_string(), facts })
            .collect();
        let sorted = SortMode { key: SortKey::Path, reverse }.apply_indexed(list, &Vec::new());
        let ids: Vec<u32> = sorted.iter().map(|s| s.id).collect();
        assert_eq!(ids, expected);
    }
}

#[test]
fn indexed_sort_uses_scoped_timestamps_and_orders_missing_metadata() {
    let scope = IndexScope::Subtree("nested/".to_string());
    let stored = [
        ("nested/new.txt", 1_700_000_060),
        ("nested/z-old.txt", 1_700_000_000),
        ("nested/a-old.txt", 1_700_000_000),
    ];
    for reverse in [false, true] {
        let paths = owned(&["new.txt", "z-old.txt", "missing.txt", "a-old.txt"]);
        let times: Vec<Option<FileTime>> = paths
            .iter()
            .map(|rel| {
                let full = scope.full_path(rel);
                stored
                    .iter()
                    .find(|(path, _)| *path == full)
                    .map(|(_, seconds)| FileTime { seconds: *seconds, nanos: 0 })
            })
            .collect();
        let sorted = SortMode { key: SortKey::Modified, reverse }.apply(paths, &times, '/');
        let mut expected = ["missing.txt", "a-old.txt", "z-old.txt", "new.txt"];
        if reverse {
            expected.reverse();
        }
        assert_eq!(sorted, expected);
    }
}

#[test]
fn sort_keys_have_names() {
    assert!(SortKey::from_str_opt("path") == Some(SortKey::Path));
    assert!(SortKey::from_str_opt("modified") == Some(SortKey::Modified));
    assert!(SortKey::from_str_opt("accessed") == Some(SortKey::Accessed));
    assert!(SortKey::from_str_opt("created") == Some(SortKey::Created));
    assert!(SortKey::from_str_opt("none").is_none());
}

#[test]
fn scope_translation_is_undone() {
    let scope = IndexScope::resolve(Some("src/core"), false).expect("below the root");
    assert_eq!(scope.prefix(), "src/core/");
    assert_eq!(scope.relativize("src/core/lib.rs", "core"), Some("lib.rs".to_string()));
    assert_eq!(scope.full_path("lib.rs"), "src/core/lib.rs");
    assert_eq!(scope.relativize("src/corelib.rs", "core"), None);

    let file = IndexScope::resolve(Some("src/lib.rs"), true).expect("below the root");
    assert_eq!(file.prefix(), "");
    assert_eq!(file.relativize("src/lib.rs", "lib.rs"), Some("lib.rs".to_string()));
    assert_eq!(file.relativize("src/main.rs", "lib.rs"), None);

    let whole = IndexScope::resolve(Some(""), false).expect("the root");
    assert_eq!(whole.relativize("a/b.rs", ""), Some("a/b.rs".to_string()));
    assert!(IndexScope::resolve(None, false).is_none());
}

#[test]
fn depth_counts_separators() {
    assert!(within_max_depth("a.rs", Some(1)));
    assert!(!within_max_depth("src/a.rs", Some(1)));
    assert!(within_max_depth("src/a.rs", Some(2)));
    assert!(!within_max_depth("a.rs", Some(0)));
    assert!(within_max_depth("a/b/c/d.rs", None));
}

#[test]
fn path_arguments_lose_space_and_quotes() {
    let targets = normalize_search_paths(&owned(&[
        " src ",
        "\"my dir\"",
        "' \"deep\" '",
        "\"",
        "\"open'",
    ]));
    let texts: Vec<&str> = targets.iter().map(|t| t.typed.as_str()).collect();
    assert_eq!(texts, ["src", "my dir", "deep", "\"", "\"open'"]);
    for t in &targets {
        assert_eq!(t.path, t.typed);
    }
    let none = normalize_search_paths(&Vec::new());
    assert_eq!(none.len(), 1);
    assert_eq!(none[0].path, ".");
    assert_eq!(none[0].typed, "");
}

#[test]
fn path_arguments_are_printed_as_typed() {
    let targets = normalize_search_paths(&owned(&["src", "./src/", r"src\"]));
    assert!(matches!(targets[0].display(false, '/'), PathDisplay::Prefix(p) if p == "src/"));
    assert!(matches!(targets[1].display(false, '/'), PathDisplay::Prefix(p) if p == "./src/"));
    assert!(matches!(targets[2].display(false, '/'), PathDisplay::Prefix(p) if p == r"src\"));
    assert!(matches!(targets[0].display(true, '/'), PathDisplay::Exact(p) if p == "src"));
    let none = normalize_search_paths(&Vec::new());
    assert!(matches!(none[0].display(false, '/'), PathDisplay::Bare));
}

#[test]
fn native_paths_are_ordered_by_component() {
    let paths = owned(&[r"C:\a\src.rs", r"C:\a\src\lib.rs", r"C:\a\a.rs"]);
    let mode = SortMode { key: SortKey::Path, reverse: false };
    let sorted = mode.apply(paths, &Vec::new(), '\\');
    assert_eq!(sorted, [r"C:\a\a.rs", r"C:\a\src\lib.rs", r"C:\a\src.rs"]);
}
