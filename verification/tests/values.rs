//! JSON values, texts, maps and orders.
use tgrep::json::{parse, print, Json};
use tgrep::path_map::PathMap;
use tgrep::ranking::{rank, rank_list};
use tgrep::slices::{floor_boundary, slice};
use tgrep::snapshot::Snapshot;
use tgrep::snapshot_file::{read_snapshot, write_snapshot};
use tgrep::sort::{SortKey, SortMode};
use tgrep::text::{lines, number, pad_left, parse_unsigned, split, split_before_last, trim};

#[test]
fn json_is_read_and_printed() {
    let text = r#"{"a":[1,-2,3.5,"x",true,null],"b":{"c":18446744073709551615}}"#;
    let json = parse(text).unwrap();
    assert_eq!(print(&json), text);
    let list = json.get_list("a").unwrap();
    assert_eq!(list[0].as_u64(), Some(1));
    assert_eq!(list[1].as_u64(), None);
    assert_eq!(list[1].as_i64(), Some(-2));
    assert_eq!(list[2].as_i64(), None);
    assert_eq!(list[3].as_str(), Some("x"));
    assert_eq!(list[4].as_bool(), Some(true));
    assert!(list[5].is_null());
    let b = json.get("b").unwrap();
    assert!(b.is_object());
    assert_eq!(b.get_u64("c"), Some(u64::MAX));
    assert_eq!(b.get("c").unwrap().as_i64(), None);
    assert!(json.get("missing").is_none());
    assert_eq!(print(&json.copy()), text);
    assert!(parse("{\"a\":}").is_err());
}

#[test]
fn repeated_keys_count_once() {
    let json = Json::object()
        .put("k", Json::unsigned(1))
        .put("k", Json::signed(-7));
    assert_eq!(json.get("k").unwrap().as_i64(), Some(-7));
    assert_eq!(print(&json), r#"{"k":-7}"#);
    assert_eq!(print(&Json::signed(7)), "7");
}

#[test]
fn maps_keep_their_keys_in_order() {
    let mut map: PathMap<u64> = PathMap::new();
    assert!(map.is_empty());
    for (key, value) in [("b", 2), ("a", 1), ("c", 3), ("a", 9)] {
        map.insert(key.to_string(), value);
    }
    let keys: Vec<&str> = (0..map.len()).map(|i| map.key_at(i)).collect();
    assert_eq!(keys, ["a", "b", "c"]);
    assert_eq!(map.get("a"), Some(&9));
    assert!(map.remove("b"));
    assert!(!map.remove("b"));
    assert!(!map.contains_key("b"));
    map.clear();
    assert_eq!(map.len(), 0);
}

#[test]
fn counts_are_ranked() {
    let list = vec![("z".to_string(), 1), ("a".to_string(), 1), ("m".to_string(), 5)];
    let ranked: Vec<String> = rank_list(&list).into_iter().map(|(path, _)| path).collect();
    assert_eq!(ranked, ["m", "a", "z"]);
    let mut map = PathMap::new();
    map.insert("x".to_string(), 3);
    map.insert("y".to_string(), 4);
    assert_eq!(rank(&map)[0], ("y".to_string(), 4));
}

#[test]
fn equal_items_keep_their_places() {
    let paths = vec!["b".to_string(), "a".to_string(), "a".to_string()];
    let mode = SortMode { key: SortKey::Path, reverse: false };
    assert_eq!(mode.order(&paths, &Vec::new()), [1, 2, 0]);
}

#[test]
fn texts_are_taken_apart() {
    assert_eq!(lines("a\r\nb\n\nc"), ["a", "b", "", "c"]);
    assert_eq!(lines(""), Vec::<String>::new());
    assert_eq!(split("a/b//c", '/'), ["a", "b", "", "c"]);
    assert_eq!(split_before_last("a/b/c", '/'), Some("a/b".to_string()));
    assert_eq!(split_before_last("abc", '/'), None);
    assert_eq!(trim(" \u{a0}x y\t\n"), "x y");
    assert_eq!(number(0), "0");
    assert_eq!(number(u64::MAX), "18446744073709551615");
    assert_eq!(parse_unsigned("+42"), Some(42));
    assert_eq!(parse_unsigned("18446744073709551616"), None);
    assert_eq!(parse_unsigned(""), None);
    assert_eq!(parse_unsigned("4 2"), None);
    assert_eq!(pad_left("7", 3, ' '), "  7");
}

#[test]
fn slices_keep_to_characters() {
    assert_eq!(floor_boundary("aé", 2), 1);
    assert_eq!(floor_boundary("aé", 3), 3);
    assert_eq!(floor_boundary("aé", 99), 3);
    assert_eq!(slice("aéb", 1, 3), "é");
}

#[test]
fn stored_texts_have_to_be_utf8() {
    let snapshot = Snapshot {
        id: "x".to_string(),
        label: "label".to_string(),
        created_at: 1,
        root: "root".to_string(),
        has_hashes: false,
        no_ignore: false,
        files: PathMap::new(),
    };
    let mut stored = write_snapshot(&snapshot).unwrap();
    let at = stored.windows(5).position(|w| w == b"label").unwrap();
    stored[at + 4] = 0xFF;
    let message = String::from_utf8(b"labe\xFF".to_vec()).unwrap_err().to_string();
    assert_eq!(read_snapshot(&stored, "x").err(), Some(message));
}
